//! The per-processor text report (`/proc/cpuinfo`): one block of
//! `key : value` lines per logical processor, blocks separated by empty lines.
use vstd::prelude::*;
use crate::cache::{cache_size_at, cache_size_kb};
use crate::text::{chars_of, decimal_thousandths, decimal_thousandths_at, eq_at, find, find_char, find_space, find_space_at, lines, parse_u32, parse_unsigned_at, string_of, trim, trim_bounds};

verus! {

/// What one processor block reports. Each field is absent where no line gave it.
pub struct ProcessorUnit {
    /// The first non-empty `model name`.
    pub model: Option<String>,
    /// The first non-empty `vendor_id`.
    pub vendor: Option<String>,
    /// The first non-empty `flags`.
    pub flags: Option<String>,
    /// The first `cache size` whose leading word reads as a size, in kilobytes.
    pub cache_kb: Option<u32>,
    /// Every `cpu MHz` reading that parses, in kilohertz, in order.
    pub khz_readings: Vec<u64>,
    /// The last `physical id` that parses.
    pub package_id: Option<u32>,
    /// The last `core id` that parses.
    pub core_id: Option<u32>,
}

pub struct UnitFacts {
    pub model: Option<Seq<char>>,
    pub vendor: Option<Seq<char>>,
    pub flags: Option<Seq<char>>,
    pub cache_kb: Option<u32>,
    pub khz_readings: Seq<u64>,
    pub package_id: Option<u32>,
    pub core_id: Option<u32>,
}

pub open spec fn text_of(o: Option<String>) -> Option<Seq<char>> {
    match o {
        Some(s) => Some(s@),
        None => None,
    }
}

impl View for ProcessorUnit {
    type V = UnitFacts;

    open spec fn view(&self) -> UnitFacts {
        UnitFacts {
            model: text_of(self.model),
            vendor: text_of(self.vendor),
            flags: text_of(self.flags),
            cache_kb: self.cache_kb,
            khz_readings: self.khz_readings@,
            package_id: self.package_id,
            core_id: self.core_id,
        }
    }
}

pub open spec fn facts(us: Seq<ProcessorUnit>) -> Seq<UnitFacts> {
    us.map_values(|u: ProcessorUnit| u@)
}

pub open spec fn empty_facts() -> UnitFacts {
    UnitFacts {
        model: None,
        vendor: None,
        flags: None,
        cache_kb: None,
        khz_readings: Seq::empty(),
        package_id: None,
        core_id: None,
    }
}

/// The key and the value of a `key : value` line, both trimmed; the first
/// colon separates them.
pub open spec fn field_of(line: Seq<char>) -> Option<(Seq<char>, Seq<char>)> {
    let t = trim(line);
    let k = find(t, ':');
    if k < t.len() {
        Some((trim(t.take(k as int)), trim(t.skip(k + 1 as int))))
    } else {
        None
    }
}

/// The first word of a trimmed value.
pub open spec fn first_word(v: Seq<char>) -> Seq<char> {
    v.take(find_space(v) as int)
}

/// What a line adds to the block it stands in.
pub open spec fn observe(u: UnitFacts, line: Seq<char>) -> UnitFacts {
    match field_of(line) {
        Some((key, value)) => if key == "model name"@ {
            if u.model is None && value.len() > 0 {
                UnitFacts { model: Some(value), ..u }
            } else {
                u
            }
        } else if key == "vendor_id"@ {
            if u.vendor is None && value.len() > 0 {
                UnitFacts { vendor: Some(value), ..u }
            } else {
                u
            }
        } else if key == "flags"@ {
            if u.flags is None && value.len() > 0 {
                UnitFacts { flags: Some(value), ..u }
            } else {
                u
            }
        } else if key == "cache size"@ {
            if u.cache_kb is None {
                UnitFacts { cache_kb: cache_size_kb(first_word(value)), ..u }
            } else {
                u
            }
        } else if key == "cpu MHz"@ {
            match decimal_thousandths(value) {
                Some(khz) => UnitFacts { khz_readings: u.khz_readings.push(khz), ..u },
                None => u,
            }
        } else if key == "physical id"@ {
            match parse_u32(value) {
                Some(n) => UnitFacts { package_id: Some(n), ..u },
                None => u,
            }
        } else if key == "core id"@ {
            match parse_u32(value) {
                Some(n) => UnitFacts { core_id: Some(n), ..u },
                None => u,
            }
        } else {
            u
        },
        None => u,
    }
}

/// Where a scan of the lines stands: the blocks completed, the block being
/// read, and whether that block has a line with any text yet.
pub struct ScanState {
    pub done: Seq<UnitFacts>,
    pub current: UnitFacts,
    pub filled: bool,
}

/// Ends the current block; a block of blank lines counts for no processor.
pub open spec fn close(st: ScanState) -> ScanState {
    ScanState {
        done: if st.filled {
            st.done.push(st.current)
        } else {
            st.done
        },
        current: empty_facts(),
        filled: false,
    }
}

pub open spec fn step(st: ScanState, line: Seq<char>) -> ScanState {
    if line.len() == 0 {
        close(st)
    } else {
        ScanState {
            done: st.done,
            current: observe(st.current, line),
            filled: st.filled || trim(line).len() > 0,
        }
    }
}

pub open spec fn run(st: ScanState, ls: Seq<Seq<char>>) -> ScanState
    decreases ls.len(),
{
    if ls.len() == 0 {
        st
    } else {
        run(step(st, ls[0]), ls.drop_first())
    }
}

pub open spec fn initial_scan() -> ScanState {
    ScanState { done: Seq::empty(), current: empty_facts(), filled: false }
}

/// The processor blocks of a report, in order.
pub open spec fn units_of(s: Seq<char>) -> Seq<UnitFacts> {
    close(run(initial_scan(), lines(s))).done
}

/// The keys that the scan looks for, as characters.
struct Keys {
    model: Vec<char>,
    vendor: Vec<char>,
    flags: Vec<char>,
    cache: Vec<char>,
    mhz: Vec<char>,
    package: Vec<char>,
    core: Vec<char>,
}

impl Keys {
    spec fn wf(&self) -> bool {
        &&& self.model@ == "model name"@
        &&& self.vendor@ == "vendor_id"@
        &&& self.flags@ == "flags"@
        &&& self.cache@ == "cache size"@
        &&& self.mhz@ == "cpu MHz"@
        &&& self.package@ == "physical id"@
        &&& self.core@ == "core id"@
    }

    fn new() -> (r: Keys)
        ensures
            r.wf(),
    {
        Keys {
            model: chars_of("model name"),
            vendor: chars_of("vendor_id"),
            flags: chars_of("flags"),
            cache: chars_of("cache size"),
            mhz: chars_of("cpu MHz"),
            package: chars_of("physical id"),
            core: chars_of("core id"),
        }
    }
}

fn new_unit() -> (r: ProcessorUnit)
    ensures
        r@ == empty_facts(),
{
    ProcessorUnit {
        model: None,
        vendor: None,
        flags: None,
        cache_kb: None,
        khz_readings: Vec::new(),
        package_id: None,
        core_id: None,
    }
}

/// Applies the line `v[lo..hi]` to the block `u`.
fn observe_line(u: &mut ProcessorUnit, v: &Vec<char>, lo: usize, hi: usize, keys: &Keys)
    requires
        lo <= hi <= v.len(),
        keys.wf(),
    ensures
        final(u)@ == observe(old(u)@, v@.subrange(lo as int, hi as int)),
{
    let ghost line = v@.subrange(lo as int, hi as int);
    let (a, b) = trim_bounds(v, lo, hi);
    let ghost t = v@.subrange(a as int, b as int);
    let k = find_char(v, a, b, ':');
    if k == b {
        return;
    }
    assert(t.take(k - a) == v@.subrange(a as int, k as int));
    assert(t.skip(k - a + 1) == v@.subrange(k + 1, b as int));
    let (ka, kb) = trim_bounds(v, a, k);
    let (va, vb) = trim_bounds(v, k + 1, b);
    let ghost value = v@.subrange(va as int, vb as int);
    assert(field_of(line) == Some((v@.subrange(ka as int, kb as int), value)));
    if eq_at(v, ka, kb, &keys.model) {
        if u.model.is_none() && va < vb {
            u.model = Some(string_of(v, va, vb));
        }
    } else if eq_at(v, ka, kb, &keys.vendor) {
        if u.vendor.is_none() && va < vb {
            u.vendor = Some(string_of(v, va, vb));
        }
    } else if eq_at(v, ka, kb, &keys.flags) {
        if u.flags.is_none() && va < vb {
            u.flags = Some(string_of(v, va, vb));
        }
    } else if eq_at(v, ka, kb, &keys.cache) {
        if u.cache_kb.is_none() {
            let w = find_space_at(v, va, vb);
            assert(value.take(w - va) == v@.subrange(va as int, w as int));
            u.cache_kb = cache_size_at(v, va, w);
        }
    } else if eq_at(v, ka, kb, &keys.mhz) {
        match decimal_thousandths_at(v, va, vb) {
            Some(khz) => {
                u.khz_readings.push(khz);
            },
            None => {},
        }
    } else if eq_at(v, ka, kb, &keys.package) {
        match parse_unsigned_at(v, va, vb, 0xffff_ffff) {
            Some(n) => {
                u.package_id = Some(n as u32);
            },
            None => {},
        }
    } else if eq_at(v, ka, kb, &keys.core) {
        match parse_unsigned_at(v, va, vb, 0xffff_ffff) {
            Some(n) => {
                u.core_id = Some(n as u32);
            },
            None => {},
        }
    }
}


proof fn lemma_close_facts(done: Seq<ProcessorUnit>, cur: ProcessorUnit, filled: bool)
    ensures
        close(ScanState { done: facts(done), current: cur@, filled }).done == (if filled {
            facts(done.push(cur))
        } else {
            facts(done)
        }),
{
    if filled {
        assert(facts(done.push(cur)) =~= facts(done).push(cur@));
    }
}

/// Splits a report into its processor blocks, in order.
pub fn parse_units(content: &str) -> (r: Vec<ProcessorUnit>)
    ensures
        facts(r@) == units_of(content@),
{
    let v = chars_of(content);
    let keys = Keys::new();
    let n = v.len();
    let mut done: Vec<ProcessorUnit> = Vec::new();
    let mut cur = new_unit();
    let mut filled = false;
    let mut p: usize = 0;
    assert(facts(done@) =~= Seq::<UnitFacts>::empty());
    assert(v@.skip(0) =~= v@);
    loop
        invariant
            p <= n == v.len(),
            v@ == content@,
            keys.wf(),
            run(ScanState { done: facts(done@), current: cur@, filled }, lines(v@.skip(p as int)))
                == run(initial_scan(), lines(content@)),
        decreases n - p,
    {
        let q = find_char(&v, p, n, '\n');
        let ghost rest = v@.skip(p as int);
        assert(v@.subrange(p as int, n as int) == rest);
        assert(rest.take(q - p) == v@.subrange(p as int, q as int));
        let ghost before = ScanState { done: facts(done@), current: cur@, filled };
        let ghost line = v@.subrange(p as int, q as int);
        if q == p {
            proof {
                lemma_close_facts(done@, cur, filled);
            }
            if filled {
                done.push(cur);
            }
            cur = new_unit();
            filled = false;
        } else {
            observe_line(&mut cur, &v, p, q, &keys);
            let (a, b) = trim_bounds(&v, p, q);
            filled = filled || a < b;
        }
        assert(ScanState { done: facts(done@), current: cur@, filled } == step(before, line));
        if q == n {
            assert(rest.take(q - p) == rest);
            assert(lines(rest) == seq![line]);
            assert(run(before, lines(rest)) == step(before, line)) by {
                assert(lines(rest).drop_first() =~= Seq::<Seq<char>>::empty());
                assert(run(step(before, line), lines(rest).drop_first()) == step(before, line));
            }
            proof {
                lemma_close_facts(done@, cur, filled);
            }
            if filled {
                done.push(cur);
            }
            return done;
        }
        assert(rest.skip(q - p + 1) == v@.skip(q + 1));
        assert(lines(rest) == seq![line] + lines(v@.skip(q + 1)));
        assert((seq![line] + lines(v@.skip(q + 1))).drop_first() == lines(v@.skip(q + 1)));
        p = q + 1;
    }
}


/// The first value present.
pub open spec fn first_some<T>(s: Seq<Option<T>>) -> Option<T>
    decreases s.len(),
{
    if s.len() == 0 {
        None
    } else {
        match first_some(s.drop_last()) {
            Some(x) => Some(x),
            None => s.last(),
        }
    }
}

/// The (package id, core id) pair of each block that has both, in order.
pub open spec fn pair_list(us: Seq<UnitFacts>) -> Seq<(u32, u32)>
    decreases us.len(),
{
    if us.len() == 0 {
        Seq::empty()
    } else {
        match (us.last().package_id, us.last().core_id) {
            (Some(p), Some(c)) => pair_list(us.drop_last()).push((p, c)),
            _ => pair_list(us.drop_last()),
        }
    }
}

/// The package id of each block that has one, in order.
pub open spec fn package_list(us: Seq<UnitFacts>) -> Seq<u32>
    decreases us.len(),
{
    if us.len() == 0 {
        Seq::empty()
    } else {
        match us.last().package_id {
            Some(p) => package_list(us.drop_last()).push(p),
            None => package_list(us.drop_last()),
        }
    }
}

/// The distinct (package, core) identities that the blocks name.
pub open spec fn identity_pairs(us: Seq<UnitFacts>) -> Set<(u32, u32)> {
    pair_list(us).to_set()
}

/// The distinct packages that the blocks name.
pub open spec fn package_ids(us: Seq<UnitFacts>) -> Set<u32> {
    package_list(us).to_set()
}

/// Physical cores: the distinct (package, core) identities; else, with
/// package ids alone, the distinct packages, taking one core per package as an
/// approximation; else one.
pub open spec fn physical_core_count(us: Seq<UnitFacts>) -> nat {
    if identity_pairs(us).len() > 0 {
        identity_pairs(us).len()
    } else if package_ids(us).len() > 0 {
        package_ids(us).len()
    } else {
        1
    }
}

/// Every clock reading of the blocks, in order.
pub open spec fn all_readings(us: Seq<UnitFacts>) -> Seq<u64>
    decreases us.len(),
{
    if us.len() == 0 {
        Seq::empty()
    } else {
        all_readings(us.drop_last()) + us.last().khz_readings
    }
}

/// The largest of the readings.
pub open spec fn max_reading(rs: Seq<u64>) -> Option<u64>
    decreases rs.len(),
{
    if rs.len() == 0 {
        None
    } else {
        match max_reading(rs.drop_last()) {
            Some(m) => Some(if m >= rs.last() {
                m
            } else {
                rs.last()
            }),
            None => Some(rs.last()),
        }
    }
}

/// What the blocks of a report come to, once reduced to one value per fact.
pub struct CpuinfoSummary {
    pub model: Option<String>,
    pub vendor: Option<String>,
    pub flags: Option<String>,
    pub cache_kb: Option<u32>,
    /// The highest clock reading, in kilohertz: a stand-in for the rated
    /// frequency, which the report does not give.
    pub max_khz: Option<u64>,
    pub physical_cores: u64,
    pub logical_cores: u64,
}

pub open spec fn models(us: Seq<UnitFacts>) -> Seq<Option<Seq<char>>> {
    us.map_values(|u: UnitFacts| u.model)
}

pub open spec fn vendors(us: Seq<UnitFacts>) -> Seq<Option<Seq<char>>> {
    us.map_values(|u: UnitFacts| u.vendor)
}

pub open spec fn flag_lists(us: Seq<UnitFacts>) -> Seq<Option<Seq<char>>> {
    us.map_values(|u: UnitFacts| u.flags)
}

pub open spec fn cache_sizes(us: Seq<UnitFacts>) -> Seq<Option<u32>> {
    us.map_values(|u: UnitFacts| u.cache_kb)
}

pub open spec fn summary_of(s: CpuinfoSummary, us: Seq<UnitFacts>) -> bool {
    &&& text_of(s.model) == first_some(models(us))
    &&& text_of(s.vendor) == first_some(vendors(us))
    &&& text_of(s.flags) == first_some(flag_lists(us))
    &&& s.cache_kb == first_some(cache_sizes(us))
    &&& s.max_khz == max_reading(all_readings(us))
    &&& s.physical_cores == physical_core_count(us)
    &&& s.logical_cores == us.len()
}

fn contains_pair(v: &Vec<(u32, u32)>, x: (u32, u32)) -> (r: bool)
    ensures
        r == v@.contains(x),
{
    let mut i: usize = 0;
    while i < v.len()
        invariant
            i <= v.len(),
            forall|j: int| 0 <= j < i ==> v@[j] != x,
        decreases v.len() - i,
    {
        if v[i].0 == x.0 && v[i].1 == x.1 {
            return true;
        }
        i += 1;
    }
    false
}

fn contains_id(v: &Vec<u32>, x: u32) -> (r: bool)
    ensures
        r == v@.contains(x),
{
    let mut i: usize = 0;
    while i < v.len()
        invariant
            i <= v.len(),
            forall|j: int| 0 <= j < i ==> v@[j] != x,
        decreases v.len() - i,
    {
        if v[i] == x {
            return true;
        }
        i += 1;
    }
    false
}

fn clone_text(o: &Option<String>) -> (r: Option<String>)
    ensures
        text_of(r) == text_of(*o),
{
    match o {
        Some(s) => Some(s.clone()),
        None => None,
    }
}

proof fn lemma_take_last<T>(s: Seq<T>, i: int)
    requires
        0 <= i < s.len(),
    ensures
        s.take(i + 1).drop_last() == s.take(i),
        s.take(i + 1).last() == s[i],
{
    assert(s.take(i + 1).drop_last() =~= s.take(i));
}

proof fn lemma_map_take<T, U>(s: Seq<T>, f: spec_fn(T) -> U, i: int)
    requires
        0 <= i < s.len(),
    ensures
        s.take(i + 1).map_values(f).drop_last() == s.take(i).map_values(f),
        s.take(i + 1).map_values(f).last() == f(s[i]),
        s.take(i + 1).map_values(f).len() > 0,
{
    assert(s.take(i + 1).map_values(f).drop_last() =~= s.take(i).map_values(f));
}

/// Reduces the blocks of a report to one value per fact.
pub fn summarize(units: &Vec<ProcessorUnit>) -> (r: CpuinfoSummary)
    ensures
        summary_of(r, facts(units@)),
{
    let ghost fu = facts(units@);
    let mut model: Option<String> = None;
    let mut vendor: Option<String> = None;
    let mut flags: Option<String> = None;
    let mut cache_kb: Option<u32> = None;
    let mut max_khz: Option<u64> = None;
    let mut pairs: Vec<(u32, u32)> = Vec::new();
    let mut packages: Vec<u32> = Vec::new();
    let mut i: usize = 0;
    while i < units.len()
        invariant
            i <= units.len(),
            fu == facts(units@),
            text_of(model) == first_some(models(fu.take(i as int))),
            text_of(vendor) == first_some(vendors(fu.take(i as int))),
            text_of(flags) == first_some(flag_lists(fu.take(i as int))),
            cache_kb == first_some(cache_sizes(fu.take(i as int))),
            max_khz == max_reading(all_readings(fu.take(i as int))),
            pairs@.no_duplicates(),
            pairs@.to_set() == identity_pairs(fu.take(i as int)),
            packages@.no_duplicates(),
            packages@.to_set() == package_ids(fu.take(i as int)),
        decreases units.len() - i,
    {
        let u = &units[i];
        let ghost pre = fu.take(i as int);
        let ghost post = fu.take(i + 1);
        proof {
            assert(fu[i as int] == u@);
            lemma_take_last(fu, i as int);
            lemma_map_take(fu, |x: UnitFacts| x.model, i as int);
            lemma_map_take(fu, |x: UnitFacts| x.vendor, i as int);
            lemma_map_take(fu, |x: UnitFacts| x.flags, i as int);
            lemma_map_take(fu, |x: UnitFacts| x.cache_kb, i as int);
        }
        if model.is_none() {
            model = clone_text(&u.model);
        }
        if vendor.is_none() {
            vendor = clone_text(&u.vendor);
        }
        if flags.is_none() {
            flags = clone_text(&u.flags);
        }
        if cache_kb.is_none() {
            cache_kb = u.cache_kb;
        }
        let mut j: usize = 0;
        while j < u.khz_readings.len()
            invariant
                j <= u.khz_readings.len(),
                max_khz == max_reading(all_readings(pre) + u.khz_readings@.take(j as int)),
            decreases u.khz_readings.len() - j,
        {
            let x = u.khz_readings[j];
            let ghost before = all_readings(pre) + u.khz_readings@.take(j as int);
            assert((all_readings(pre) + u.khz_readings@.take(j + 1)).drop_last() == before);
            max_khz = match max_khz {
                Some(m) => Some(if m >= x {
                    m
                } else {
                    x
                }),
                None => Some(x),
            };
            j += 1;
        }
        assert(all_readings(post) == all_readings(pre) + u.khz_readings@);
        assert(u.khz_readings@.take(j as int) == u.khz_readings@);
        match u.package_id {
            Some(p) => {
                if !contains_id(&packages, p) {
                    proof {
                        packages@.lemma_push_to_set_commute(p);
                    }
                    packages.push(p);
                } else {
                    assert(packages@.to_set().contains(p));
                }
                assert(packages@.to_set() =~= package_ids(pre).insert(p));
                assert(package_list(post) == package_list(pre).push(p));
                proof {
                    package_list(pre).lemma_push_to_set_commute(p);
                }
            },
            None => {},
        }
        match (u.package_id, u.core_id) {
            (Some(p), Some(c)) => {
                if !contains_pair(&pairs, (p, c)) {
                    proof {
                        pairs@.lemma_push_to_set_commute((p, c));
                    }
                    pairs.push((p, c));
                } else {
                    assert(pairs@.to_set().contains((p, c)));
                }
                assert(pairs@.to_set() =~= identity_pairs(pre).insert((p, c)));
                assert(pair_list(post) == pair_list(pre).push((p, c)));
                proof {
                    pair_list(pre).lemma_push_to_set_commute((p, c));
                }
            },
            _ => {},
        }
        i += 1;
    }
    assert(fu.take(i as int) == fu);
    proof {
        pairs@.unique_seq_to_set();
        packages@.unique_seq_to_set();
    }
    let physical: u64 = if pairs.len() > 0 {
        pairs.len() as u64
    } else if packages.len() > 0 {
        packages.len() as u64
    } else {
        1
    };
    CpuinfoSummary {
        model,
        vendor,
        flags,
        cache_kb,
        max_khz,
        physical_cores: physical,
        logical_cores: units.len() as u64,
    }
}


proof fn lemma_lists_short(us: Seq<UnitFacts>)
    ensures
        pair_list(us).len() <= us.len(),
        package_list(us).len() <= us.len(),
    decreases us.len(),
{
    if us.len() > 0 {
        lemma_lists_short(us.drop_last());
    }
}

/// With at least one block, there are at least one and at most as many
/// physical cores as blocks.
pub proof fn lemma_physical_at_most_units(us: Seq<UnitFacts>)
    requires
        us.len() > 0,
    ensures
        1 <= physical_core_count(us) <= us.len(),
{
    lemma_lists_short(us);
    pair_list(us).lemma_cardinality_of_set();
    package_list(us).lemma_cardinality_of_set();
}


proof fn lemma_pairs_need_packages(us: Seq<UnitFacts>)
    ensures
        pair_list(us).len() <= package_list(us).len(),
    decreases us.len(),
{
    if us.len() > 0 {
        lemma_pairs_need_packages(us.drop_last());
    }
}

/// Where the blocks of a report name at least one (package, core) identity,
/// the physical core count is the number of distinct identities, whatever the
/// number of blocks, and never more than the number of blocks.
pub proof fn law_physical_cores_are_distinct_identities(s: Seq<char>)
    requires
        identity_pairs(units_of(s)).len() > 0,
    ensures
        physical_core_count(units_of(s)) == identity_pairs(units_of(s)).len(),
        physical_core_count(units_of(s)) <= units_of(s).len(),
{
    let us = units_of(s);
    lemma_lists_short(us);
    pair_list(us).lemma_cardinality_of_set();
}

/// Where no block of a report names a package, there is one physical core,
/// and one logical core per block.
pub proof fn law_no_identity_means_one_core(s: Seq<char>)
    requires
        package_ids(units_of(s)).len() == 0,
    ensures
        identity_pairs(units_of(s)).len() == 0,
        physical_core_count(units_of(s)) == 1,
{
    let us = units_of(s);
    package_list(us).lemma_cardinality_of_empty_set_is_0();
    lemma_pairs_need_packages(us);
    pair_list(us).lemma_cardinality_of_empty_set_is_0();
}

} // verus!
