//! macOS: the values of the system configuration store (`sysctl`), reduced
//! to one record.
use vstd::prelude::*;
use crate::cache::{cache_size, sized, CacheLevel, CacheTable};
use crate::cla::starts_with;
use crate::cpuinfo::text_of;
use crate::record::{ByteOrder, CpuInfo, ExtractionError};
use crate::text::{chars_of, decimal_thousandths, decimal_thousandths_at, eq_at, parse_u32, parse_unsigned_at, split_lines, split_words, string_of, text_lines, texts, trim, trim_bounds, words};
use crate::vendor::{vendor_of, Vendor};

verus! {

broadcast use vstd::string::group_string_axioms;

/// The raw output of each query; `None` where the query failed.
pub struct MacSysctl {
    /// `machdep.cpu.brand_string`.
    pub brand: Option<String>,
    /// `uname -m`.
    pub machine: Option<String>,
    /// `hw.byteorder`.
    pub byte_order: Option<String>,
    /// `machdep.cpu.core_count`.
    pub core_count: Option<String>,
    /// `machdep.cpu.cores_per_package`.
    pub cores_per_package: Option<String>,
    /// `machdep.cpu.thread_count`.
    pub thread_count: Option<String>,
    /// `machdep.cpu.logical_per_package`.
    pub logical_per_package: Option<String>,
    /// `machdep.cpu.max_basic`, read as a base clock in megahertz.
    pub max_basic: Option<String>,
    /// `hw.cachesize`: bytes per cache level, from index 1 on.
    pub cache_sizes: Option<String>,
    /// `hw.cacheconfig`: processors per cache, by the same index.
    pub cache_config: Option<String>,
    /// `hw.perflevel0.l1icachesize`, in bytes.
    pub perf0_l1i: Option<String>,
    /// `hw.perflevel0.l1dcachesize`, in bytes.
    pub perf0_l1d: Option<String>,
    /// `hw.perflevel0.l2cachesize`, in bytes.
    pub perf0_l2: Option<String>,
    /// `hw.perflevel1.l1icachesize`, in bytes.
    pub perf1_l1i: Option<String>,
    /// `hw.perflevel1.l1dcachesize`, in bytes.
    pub perf1_l1d: Option<String>,
    /// `hw.perflevel1.l2cachesize`, in bytes.
    pub perf1_l2: Option<String>,
    /// The `key: value` lines of `sysctl hw.optional.arm.`.
    pub arm_features: Option<String>,
}

/// A query's value: its output trimmed, where it ran.
pub open spec fn value_of(o: Option<String>) -> Option<Seq<char>> {
    match o {
        Some(s) => Some(trim(s@)),
        None => None,
    }
}

/// A query's value read as a `u32`.
pub open spec fn count_of(o: Option<String>) -> Option<u32> {
    match value_of(o) {
        Some(v) => parse_u32(v),
        None => None,
    }
}

pub open spec fn either(a: Option<u32>, b: Option<u32>) -> Option<u32> {
    if a is Some {
        a
    } else {
        b
    }
}

pub open spec fn byte_order_named(o: Option<Seq<char>>) -> ByteOrder {
    match o {
        Some(v) => if v == "1234"@ {
            ByteOrder::LittleEndian
        } else if v == "4321"@ {
            ByteOrder::BigEndian
        } else {
            ByteOrder::Unknown
        },
        None => ByteOrder::Unknown,
    }
}

/// Physical cores: the core count, else the cores per package; one where
/// neither gives a count above zero.
pub open spec fn mac_physical(s: MacSysctl) -> u64 {
    match either(count_of(s.core_count), count_of(s.cores_per_package)) {
        Some(n) => if n > 0 {
            n as u64
        } else {
            1
        },
        None => 1,
    }
}

/// Logical cores: the thread count, else the logical processors per package,
/// else the physical count; never fewer than the physical cores.
pub open spec fn mac_logical(s: MacSysctl) -> u64 {
    let p = mac_physical(s);
    match either(count_of(s.thread_count), count_of(s.logical_per_package)) {
        Some(n) => if n as u64 >= p {
            n as u64
        } else {
            p
        },
        None => p,
    }
}

pub open spec fn zero_if_absent(o: Option<u32>) -> u32 {
    match o {
        Some(n) => n,
        None => 0,
    }
}

/// The per-unit kilobytes of the cache at index `i` of the size and
/// configuration lists, where both give a value above zero.
pub open spec fn level_kb(sizes: Seq<Seq<char>>, config: Seq<Seq<char>>, i: int) -> Option<u32> {
    if sizes.len() > i && config.len() > i {
        let b = zero_if_absent(parse_u32(sizes[i]));
        let c = zero_if_absent(parse_u32(config[i]));
        if b > 0 && c > 0 {
            Some(b / 1024)
        } else {
            None
        }
    } else {
        None
    }
}

pub open spec fn words_of(o: Option<String>) -> Seq<Seq<char>> {
    match o {
        Some(s) => words(s@),
        None => Seq::empty(),
    }
}

/// The third level: from the lists where they give it; else, where the two
/// performance levels report different second-level sizes, the larger one, as
/// the shared cache.
pub open spec fn mac_l3_kb(s: MacSysctl) -> Option<u32> {
    let listed = level_kb(words_of(s.cache_sizes), words_of(s.cache_config), 3);
    if listed is Some {
        listed
    } else {
        match (count_of(s.perf0_l2), count_of(s.perf1_l2)) {
            (Some(a), Some(b)) => if a != b {
                Some((if a > b {
                    a
                } else {
                    b
                }) / 1024)
            } else {
                None
            },
            _ => None,
        }
    }
}

pub open spec fn mac_caches(s: MacSysctl) -> CacheTable {
    let p = mac_physical(s);
    let sizes = words_of(s.cache_sizes);
    let config = words_of(s.cache_config);
    CacheTable {
        l1i: None,
        l1d: sized(CacheLevel::L1, level_kb(sizes, config, 1), p),
        l2: sized(CacheLevel::L2, level_kb(sizes, config, 2), p),
        l3: sized(CacheLevel::L3, mac_l3_kb(s), p),
    }
}

/// The position of the first `": "` in `s`, or `s.len()`.
pub open spec fn find_separator(s: Seq<char>) -> nat
    decreases s.len(),
{
    if s.len() < 2 {
        s.len()
    } else if s[0] == ':' && s[1] == ' ' {
        0
    } else {
        1 + find_separator(s.drop_first())
    }
}

proof fn lemma_find_separator(s: Seq<char>)
    ensures
        find_separator(s) <= s.len(),
        find_separator(s) < s.len() ==> find_separator(s) + 2 <= s.len(),
    decreases s.len(),
{
    if s.len() >= 2 && !(s[0] == ':' && s[1] == ' ') {
        lemma_find_separator(s.drop_first());
    }
}

/// The feature that a `hw.optional.arm.<name>: 1` line enables.
pub open spec fn feature_of(line: Seq<char>) -> Option<Seq<char>> {
    let k = find_separator(line);
    if k < line.len() {
        let key = line.take(k as int);
        let value = line.skip(k + 2 as int);
        if trim(value) == "1"@ && starts_with(key, "hw.optional.arm."@) {
            Some(key.skip("hw.optional.arm."@.len() as int))
        } else {
            None
        }
    } else {
        None
    }
}

/// The enabled features of the lines, in order.
pub open spec fn features_of(ls: Seq<Seq<char>>) -> Seq<Seq<char>>
    decreases ls.len(),
{
    if ls.len() == 0 {
        Seq::empty()
    } else {
        match feature_of(ls.last()) {
            Some(f) => features_of(ls.drop_last()).push(f),
            None => features_of(ls.drop_last()),
        }
    }
}

pub open spec fn mac_flags(s: MacSysctl) -> Seq<Seq<char>> {
    match s.arm_features {
        Some(o) => features_of(text_lines(o@)),
        None => Seq::empty(),
    }
}

/// Whether the queries named no processor at all: an empty brand string and
/// no core or thread count.
pub open spec fn mac_insufficient(s: MacSysctl) -> bool {
    &&& value_of(s.brand) == Some(Seq::<char>::empty())
    &&& count_of(s.core_count) is None
    &&& count_of(s.cores_per_package) is None
    &&& count_of(s.thread_count) is None
    &&& count_of(s.logical_per_package) is None
}

/// A query's byte count in whole kilobytes.
pub open spec fn kb_of(o: Option<String>) -> Option<u32> {
    match count_of(o) {
        Some(b) => Some(b / 1024),
        None => None,
    }
}

/// The caches of one performance level (a cluster of like cores), in
/// kilobytes, where reported.
#[derive(Clone, Copy, Debug, PartialEq, Eq, Structural)]
pub struct ClusterCaches {
    pub l1i_kb: Option<u32>,
    pub l1d_kb: Option<u32>,
    pub l2_kb: Option<u32>,
}

/// macOS CPU information: the record, and the caches of the performance and
/// the efficiency cores where the machine reports them apart.
pub struct MacOSCpuInfo {
    pub info: CpuInfo,
    pub performance: ClusterCaches,
    pub efficiency: ClusterCaches,
}

fn kb_exec(o: &Option<String>) -> (r: Option<u32>)
    ensures
        r == kb_of(*o),
{
    match count_exec(o) {
        Some(b) => Some(b / 1024),
        None => None,
    }
}

fn trimmed_value(o: &Option<String>) -> (r: Option<(Vec<char>, usize, usize)>)
    ensures
        match r {
            Some((v, a, b)) => a <= b <= v.len() && value_of(*o) == Some(v@.subrange(a as int, b as int)),
            None => value_of(*o) is None,
        },
{
    match o {
        Some(s) => {
            let v = chars_of(s.as_str());
            let (a, b) = trim_bounds(&v, 0, v.len());
            assert(v@.subrange(0, v@.len() as int) == v@);
            Some((v, a, b))
        },
        None => None,
    }
}

fn count_exec(o: &Option<String>) -> (r: Option<u32>)
    ensures
        r == count_of(*o),
{
    match trimmed_value(o) {
        Some((v, a, b)) => match parse_unsigned_at(&v, a, b, 0xffff_ffff) {
            Some(n) => Some(n as u32),
            None => None,
        },
        None => None,
    }
}

fn either_exec(a: Option<u32>, b: Option<u32>) -> (r: Option<u32>)
    ensures
        r == either(a, b),
{
    if a.is_some() {
        a
    } else {
        b
    }
}

fn words_exec(o: &Option<String>) -> (r: Vec<String>)
    ensures
        texts(r@) == words_of(*o),
{
    match o {
        Some(s) => split_words(s.as_str()),
        None => {
            let e: Vec<String> = Vec::new();
            assert(texts(e@) =~= Seq::<Seq<char>>::empty());
            e
        },
    }
}

fn parse_or_zero(s: &String) -> (r: u32)
    ensures
        r == zero_if_absent(parse_u32(s@)),
{
    let v = chars_of(s.as_str());
    assert(v@.subrange(0, v@.len() as int) == v@);
    match parse_unsigned_at(&v, 0, v.len(), 0xffff_ffff) {
        Some(n) => n as u32,
        None => 0,
    }
}

fn level_kb_exec(sizes: &Vec<String>, config: &Vec<String>, i: usize) -> (r: Option<u32>)
    ensures
        r == level_kb(texts(sizes@), texts(config@), i as int),
{
    if sizes.len() > i && config.len() > i {
        let b = parse_or_zero(&sizes[i]);
        let c = parse_or_zero(&config[i]);
        if b > 0 && c > 0 {
            Some(b / 1024)
        } else {
            None
        }
    } else {
        None
    }
}

fn find_separator_at(v: &Vec<char>, lo: usize, hi: usize) -> (r: usize)
    requires
        lo <= hi <= v.len(),
    ensures
        lo <= r <= hi,
        r - lo == find_separator(v@.subrange(lo as int, hi as int)),
{
    let mut i: usize = lo;
    while hi - i >= 2 && !(v[i] == ':' && v[i + 1] == ' ')
        invariant
            lo <= i <= hi <= v.len(),
            find_separator(v@.subrange(lo as int, hi as int)) == (i - lo) + find_separator(
                v@.subrange(i as int, hi as int),
            ),
        decreases hi - i,
    {
        assert(v@.subrange(i as int, hi as int).drop_first() == v@.subrange(i + 1, hi as int));
        i += 1;
    }
    if hi - i < 2 {
        return hi;
    }
    i
}

fn feature_exec(line: &String, prefix: &Vec<char>) -> (r: Option<String>)
    requires
        prefix@ == "hw.optional.arm."@,
    ensures
        text_of(r) == feature_of(line@),
{
    let v = chars_of(line.as_str());
    let n = v.len();
    assert(v@.subrange(0, n as int) == v@);
    let k = find_separator_at(&v, 0, n);
    proof {
        lemma_find_separator(v@);
    }
    if k == n {
        return None;
    }
    assert(v@.take(k as int) == v@.subrange(0, k as int));
    assert(v@.skip(k + 2) == v@.subrange(k + 2, n as int));
    let (a, b) = trim_bounds(&v, k + 2, n);
    let one = chars_of("1");
    if !eq_at(&v, a, b, &one) {
        return None;
    }
    if k < prefix.len() || !eq_at(&v, 0, prefix.len(), prefix) {
        assert(!starts_with(v@.take(k as int), "hw.optional.arm."@)) by {
            if k >= prefix.len() {
                assert(v@.take(k as int).take(prefix.len() as int) == v@.subrange(0, prefix.len() as int));
            }
        }
        return None;
    }
    assert(v@.take(k as int).take(prefix.len() as int) == v@.subrange(0, prefix.len() as int));
    assert(v@.take(k as int).skip(prefix.len() as int) == v@.subrange(prefix.len() as int, k as int));
    Some(string_of(&v, prefix.len(), k))
}

fn features_exec(output: &String) -> (r: Vec<String>)
    ensures
        texts(r@) == features_of(text_lines(output@)),
{
    let v = chars_of(output.as_str());
    let ls = split_lines(&v);
    let ghost lv = texts(ls@);
    let prefix = chars_of("hw.optional.arm.");
    let mut r: Vec<String> = Vec::new();
    let mut i: usize = 0;
    assert(texts(r@) =~= Seq::<Seq<char>>::empty());
    while i < ls.len()
        invariant
            i <= ls.len(),
            lv == texts(ls@),
            prefix@ == "hw.optional.arm."@,
            texts(r@) == features_of(lv.take(i as int)),
        decreases ls.len() - i,
    {
        assert(lv.take(i + 1).drop_last() == lv.take(i as int));
        assert(lv.take(i + 1).last() == ls@[i as int]@);
        let ghost before = texts(r@);
        match feature_exec(&ls[i], &prefix) {
            Some(f) => {
                r.push(f);
                assert(texts(r@) == before.push(f@));
            },
            None => {},
        }
        i += 1;
    }
    assert(lv.take(i as int) == lv);
    r
}

fn value_is(o: &Option<(Vec<char>, usize, usize)>, lit: &str) -> (r: bool)
    requires
        match o {
            Some((v, a, b)) => *a <= *b <= v.len(),
            None => true,
        },
    ensures
        r == match o {
            Some((v, a, b)) => v@.subrange(*a as int, *b as int) == lit@,
            None => false,
        },
{
    match o {
        Some((v, a, b)) => eq_at(v, *a, *b, &chars_of(lit)),
        None => false,
    }
}

impl MacOSCpuInfo {
    /// Builds the record from the sysctl values. Fails where the brand string
    /// could not be queried, or where no value names a processor.
    pub fn new(s: &MacSysctl) -> (r: Result<MacOSCpuInfo, ExtractionError>)
        ensures
            match r {
                Err(ExtractionError::SourceUnavailable(_)) => s.brand is None,
                Err(ExtractionError::InsufficientData) => s.brand is Some && mac_insufficient(*s),
                Ok(c) => {
                    &&& s.brand is Some
                    &&& !mac_insufficient(*s)
                    &&& c.info.wf()
                    &&& Some(c.info.model@) == value_of(s.brand)
                    &&& c.info.vendor == vendor_of(c.info.model@)
                    &&& text_of(c.info.architecture) == value_of(s.machine)
                    &&& c.info.byte_order == byte_order_named(value_of(s.byte_order))
                    &&& c.info.physical_cores == mac_physical(*s)
                    &&& c.info.logical_cores == mac_logical(*s)
                    &&& c.info.frequency_khz == match value_of(s.max_basic) {
                        Some(v) => decimal_thousandths(v),
                        None => None,
                    }
                    &&& c.info.caches == mac_caches(*s)
                    &&& texts(c.info.flags@) == mac_flags(*s)
                    &&& c.performance == (ClusterCaches {
                        l1i_kb: kb_of(s.perf0_l1i),
                        l1d_kb: kb_of(s.perf0_l1d),
                        l2_kb: kb_of(s.perf0_l2),
                    })
                    &&& c.efficiency == (ClusterCaches {
                        l1i_kb: kb_of(s.perf1_l1i),
                        l1d_kb: kb_of(s.perf1_l1d),
                        l2_kb: kb_of(s.perf1_l2),
                    })
                },
            },
    {
        let (bv, ba, bb) = match trimmed_value(&s.brand) {
            Some(t) => t,
            None => {
                return Err(
                    ExtractionError::SourceUnavailable(
                        "sysctl command failed for key: machdep.cpu.brand_string".to_string(),
                    ),
                );
            },
        };
        let core_count = count_exec(&s.core_count);
        let cores_per_package = count_exec(&s.cores_per_package);
        let thread_count = count_exec(&s.thread_count);
        let logical_per_package = count_exec(&s.logical_per_package);
        if ba == bb && core_count.is_none() && cores_per_package.is_none() && thread_count.is_none()
            && logical_per_package.is_none() {
            assert(bv@.subrange(ba as int, bb as int) =~= Seq::<char>::empty());
            return Err(ExtractionError::InsufficientData);
        }
        let model = string_of(&bv, ba, bb);
        let vendor = Vendor::from_text(model.as_str());
        let architecture = match trimmed_value(&s.machine) {
            Some((v, a, b)) => Some(string_of(&v, a, b)),
            None => None,
        };
        let order = trimmed_value(&s.byte_order);
        let byte_order = if value_is(&order, "1234") {
            ByteOrder::LittleEndian
        } else if value_is(&order, "4321") {
            ByteOrder::BigEndian
        } else {
            ByteOrder::Unknown
        };
        let physical: u64 = match either_exec(core_count, cores_per_package) {
            Some(n) => if n > 0 {
                n as u64
            } else {
                1
            },
            None => 1,
        };
        let logical: u64 = match either_exec(thread_count, logical_per_package) {
            Some(n) => if n as u64 >= physical {
                n as u64
            } else {
                physical
            },
            None => physical,
        };
        let frequency_khz = match trimmed_value(&s.max_basic) {
            Some((v, a, b)) => decimal_thousandths_at(&v, a, b),
            None => None,
        };
        let sizes = words_exec(&s.cache_sizes);
        let config = words_exec(&s.cache_config);
        let l1d = match level_kb_exec(&sizes, &config, 1) {
            Some(kb) => Some(cache_size(CacheLevel::L1, kb, physical)),
            None => None,
        };
        let l2 = match level_kb_exec(&sizes, &config, 2) {
            Some(kb) => Some(cache_size(CacheLevel::L2, kb, physical)),
            None => None,
        };
        let listed = level_kb_exec(&sizes, &config, 3);
        let l3_kb = if listed.is_some() {
            listed
        } else {
            match (count_exec(&s.perf0_l2), count_exec(&s.perf1_l2)) {
                (Some(a), Some(b)) => if a != b {
                    Some((if a > b {
                        a
                    } else {
                        b
                    }) / 1024)
                } else {
                    None
                },
                _ => None,
            }
        };
        let l3 = match l3_kb {
            Some(kb) => Some(cache_size(CacheLevel::L3, kb, physical)),
            None => None,
        };
        let flags = match &s.arm_features {
            Some(o) => features_exec(o),
            None => {
                let e: Vec<String> = Vec::new();
                assert(texts(e@) =~= Seq::<Seq<char>>::empty());
                e
            },
        };
        Ok(MacOSCpuInfo {
            info: CpuInfo {
                model,
                vendor,
                architecture,
                byte_order,
                physical_cores: physical,
                logical_cores: logical,
                frequency_khz,
                caches: CacheTable { l1i: None, l1d, l2, l3 },
                flags,
            },
            performance: ClusterCaches {
                l1i_kb: kb_exec(&s.perf0_l1i),
                l1d_kb: kb_exec(&s.perf0_l1d),
                l2_kb: kb_exec(&s.perf0_l2),
            },
            efficiency: ClusterCaches {
                l1i_kb: kb_exec(&s.perf1_l1i),
                l1d_kb: kb_exec(&s.perf1_l1d),
                l2_kb: kb_exec(&s.perf1_l2),
            },
        })
    }
}

} // verus!
