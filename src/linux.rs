//! Linux: the per-processor report, the kernel's cache tree and its
//! frequency files, reduced to one record.
use vstd::prelude::*;
use crate::cache::{cache_table, cache_size, sized, table_of, CacheIndex, CacheLevel, CacheTable};
use crate::cpuinfo::{UnitFacts, all_readings, first_some, flag_lists, max_reading, models, parse_units, physical_core_count, summarize, text_of, units_of, vendors, facts};
use crate::record::{ByteOrder, CpuInfo, ExtractionError};
use crate::text::{all_digits, eq_at, is_digit_char, chars_of, parse_unsigned_at, parse_u64, split_words, string_of, texts, trim, trim_bounds, words};
use crate::vendor::{vendor_of, Vendor};
use crate::cla::starts_with;

verus! {

/// What the Linux sources gave, read and not yet interpreted.
pub struct LinuxSources {
    /// The per-processor report.
    pub cpuinfo: String,
    /// The machine type as `uname -m` printed it, where it ran.
    pub machine: Option<String>,
    /// The contents of each processor's maximum scaling frequency file that
    /// could be read, in kilohertz as text.
    pub max_freq_readings: Vec<String>,
    /// The cache entries of the first processor that could be read.
    pub cache_entries: Vec<CacheIndex>,
    pub byte_order: ByteOrder,
}

/// The largest frequency file reading that parses, or 0.
pub open spec fn scaling_max(rs: Seq<String>) -> u64
    decreases rs.len(),
{
    if rs.len() == 0 {
        0
    } else {
        let m = scaling_max(rs.drop_last());
        match parse_u64(trim(rs.last()@)) {
            Some(f) => if f > m {
                f
            } else {
                m
            },
            None => m,
        }
    }
}

/// The clock: the frequency files' maximum where one is above zero, else the
/// highest reading of the report.
pub open spec fn linux_frequency(readings: Seq<String>, us: Seq<UnitFacts>) -> Option<u64> {
    if scaling_max(readings) > 0 {
        Some(scaling_max(readings))
    } else {
        max_reading(all_readings(us))
    }
}

/// The vendor: from the vendor id where it names a known maker, else from the
/// model name.
pub open spec fn linux_vendor(vendor_id: Option<Seq<char>>, model: Option<Seq<char>>) -> Vendor {
    let from_id = match vendor_id {
        Some(v) => vendor_of(v),
        None => Vendor::Unknown,
    };
    if from_id != Vendor::Unknown {
        from_id
    } else {
        match model {
            Some(m) => vendor_of(m),
            None => Vendor::Unknown,
        }
    }
}

/// The kernel's cache tree first; for the second level, where the tree gives
/// nothing, the report's own cache size.
pub open spec fn linux_caches(tree: CacheTable, report_kb: Option<u32>, physical_cores: u64) -> CacheTable {
    CacheTable {
        l2: if tree.l2 is Some {
            tree.l2
        } else {
            sized(CacheLevel::L2, report_kb, physical_cores)
        },
        ..tree
    }
}

pub open spec fn text_or_empty(o: Option<Seq<char>>) -> Seq<char> {
    match o {
        Some(s) => s,
        None => Seq::empty(),
    }
}

pub open spec fn trimmed(o: Option<String>) -> Option<Seq<char>> {
    match o {
        Some(s) => Some(trim(s@)),
        None => None,
    }
}

/// Linux CPU information.
pub struct LinuxCpuInfo {
    pub info: CpuInfo,
}

fn max_scaling_frequency(rs: &Vec<String>) -> (r: u64)
    ensures
        r == scaling_max(rs@),
{
    let mut m: u64 = 0;
    let mut i: usize = 0;
    while i < rs.len()
        invariant
            i <= rs.len(),
            m == scaling_max(rs@.take(i as int)),
        decreases rs.len() - i,
    {
        assert(rs@.take(i + 1).drop_last() == rs@.take(i as int));
        let v = chars_of(rs[i].as_str());
        let (a, b) = trim_bounds(&v, 0, v.len());
        assert(v@.subrange(0, v@.len() as int) == v@);
        match parse_unsigned_at(&v, a, b, 0xffff_ffff_ffff_ffff) {
            Some(f) => {
                if f > m {
                    m = f;
                }
            },
            None => {},
        }
        i += 1;
    }
    assert(rs@.take(i as int) == rs@);
    m
}

fn trim_string(s: &String) -> (r: String)
    ensures
        r@ == trim(s@),
{
    let v = chars_of(s.as_str());
    let (a, b) = trim_bounds(&v, 0, v.len());
    assert(v@.subrange(0, v@.len() as int) == v@);
    string_of(&v, a, b)
}

fn vendor_or_unknown(o: &Option<String>) -> (r: Vendor)
    ensures
        r == match text_of(*o) {
            Some(v) => vendor_of(v),
            None => Vendor::Unknown,
        },
{
    match o {
        Some(s) => Vendor::from_text(s.as_str()),
        None => Vendor::Unknown,
    }
}

impl LinuxCpuInfo {
    /// Builds the record from the Linux sources. Fails only where the report
    /// holds no processor block.
    pub fn new(src: &LinuxSources) -> (r: Result<LinuxCpuInfo, ExtractionError>)
        ensures
            ({
                let us = units_of(src.cpuinfo@);
                match r {
                    Err(e) => us.len() == 0 && e is InsufficientData,
                    Ok(c) => {
                        &&& us.len() > 0
                        &&& c.info.wf()
                        &&& c.info.model@ == text_or_empty(first_some(models(us)))
                        &&& c.info.vendor == linux_vendor(first_some(vendors(us)), first_some(models(us)))
                        &&& text_of(c.info.architecture) == trimmed(src.machine)
                        &&& c.info.byte_order == src.byte_order
                        &&& c.info.physical_cores == physical_core_count(us)
                        &&& c.info.logical_cores == us.len()
                        &&& c.info.frequency_khz == linux_frequency(src.max_freq_readings@, us)
                        &&& c.info.caches == linux_caches(
                            table_of(src.cache_entries@, c.info.physical_cores),
                            first_some(crate::cpuinfo::cache_sizes(us)),
                            c.info.physical_cores,
                        )
                        &&& texts(c.info.flags@) == words(text_or_empty(first_some(flag_lists(us))))
                    },
                }
            }),
    {
        let units = parse_units(src.cpuinfo.as_str());
        let s = summarize(&units);
        if units.len() == 0 {
            return Err(ExtractionError::InsufficientData);
        }
        proof {
            crate::cpuinfo::lemma_physical_at_most_units(facts(units@));
        }
        let from_id = vendor_or_unknown(&s.vendor);
        let vendor = if from_id != Vendor::Unknown {
            from_id
        } else {
            vendor_or_unknown(&s.model)
        };
        let scaled = max_scaling_frequency(&src.max_freq_readings);
        let frequency_khz = if scaled > 0 {
            Some(scaled)
        } else {
            s.max_khz
        };
        let tree = cache_table(&src.cache_entries, s.physical_cores);
        let l2 = if tree.l2.is_some() {
            tree.l2
        } else {
            match s.cache_kb {
                Some(kb) => Some(cache_size(CacheLevel::L2, kb, s.physical_cores)),
                None => None,
            }
        };
        let flags = match &s.flags {
            Some(f) => split_words(f.as_str()),
            None => {
                let e: Vec<String> = Vec::new();
                assert(texts(e@) =~= words(Seq::<char>::empty()));
                e
            },
        };
        let architecture = match &src.machine {
            Some(m) => Some(trim_string(m)),
            None => None,
        };
        let model = match s.model {
            Some(m) => m,
            None => String::new(),
        };
        Ok(LinuxCpuInfo {
            info: CpuInfo {
                model,
                vendor,
                architecture,
                byte_order: src.byte_order,
                physical_cores: s.physical_cores,
                logical_cores: s.logical_cores,
                frequency_khz,
                caches: CacheTable { l2, ..tree },
                flags,
            },
        })
    }
}


/// Whether a directory of the kernel's processor tree belongs to one
/// processor: `cpu` followed by decimal digits only.
pub open spec fn is_cpu_dir(name: Seq<char>) -> bool {
    starts_with(name, "cpu"@) && all_digits(name.skip(3))
}

/// Whether a directory of a processor's cache tree describes one cache.
pub open spec fn is_cache_dir(name: Seq<char>) -> bool {
    starts_with(name, "index"@)
}

fn starts_with_exec(v: &Vec<char>, p: &Vec<char>) -> (r: bool)
    ensures
        r == starts_with(v@, p@),
{
    if v.len() < p.len() {
        return false;
    }
    assert(v@.take(p.len() as int) == v@.subrange(0, p.len() as int));
    eq_at(v, 0, p.len(), p)
}

pub fn is_cpu_dir_name(name: &str) -> (r: bool)
    ensures
        r == is_cpu_dir(name@),
{
    let v = chars_of(name);
    let p = chars_of("cpu");
    if !starts_with_exec(&v, &p) {
        return false;
    }
    proof {
        reveal_strlit("cpu");
    }
    let mut i: usize = 3;
    while i < v.len()
        invariant
            3 <= i <= v.len(),
            v@ == name@,
            forall|j: int| 3 <= j < i ==> crate::text::is_digit(#[trigger] v@[j]),
        decreases v.len() - i,
    {
        if !is_digit_char(v[i]) {
            let ghost k: int = i - 3;
            assert(name@.skip(3)[k] == v@[i as int]);
            assert(!crate::text::is_digit(name@.skip(3)[k]));
            return false;
        }
        i += 1;
    }
    assert forall|j: int| 0 <= j < v@.skip(3).len() implies crate::text::is_digit(#[trigger] v@.skip(3)[j]) by {
        assert(v@.skip(3)[j] == v@[j + 3]);
    }
    true
}

pub fn is_cache_index_name(name: &str) -> (r: bool)
    ensures
        r == is_cache_dir(name@),
{
    starts_with_exec(&chars_of(name), &chars_of("index"))
}


/// Where no frequency file reads above zero and the report has no clock
/// reading, the clock is absent; whether a record is built does not depend
/// on it.
pub proof fn law_missing_frequency_is_absent(readings: Seq<String>, us: Seq<UnitFacts>)
    requires
        scaling_max(readings) == 0,
        all_readings(us).len() == 0,
    ensures
        linux_frequency(readings, us) is None,
{
    assert(all_readings(us) =~= Seq::<u64>::empty());
}

} // verus!
