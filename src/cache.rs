//! Cache sizes: the text forms that report them, and the totals of each level.
use vstd::prelude::*;
use crate::text::{chars_of, eq_at, parse_unsigned, parse_unsigned_at, trim, trim_bounds, parse_u32};

verus! {

#[derive(Clone, Copy, Debug, PartialEq, Eq, Structural)]
pub enum CacheLevel {
    L1,
    L2,
    L3,
}

#[derive(Clone, Copy, Debug, PartialEq, Eq, Structural)]
pub enum CacheType {
    Instruction,
    Data,
    Unified,
}

/// Whether each core has its own cache of this level (L1 and L2), rather than
/// one cache shared by the cores of a package (L3).
pub open spec fn is_per_core(level: CacheLevel) -> bool {
    level != CacheLevel::L3
}

impl CacheLevel {
    pub fn per_core(&self) -> (r: bool)
        ensures
            r == is_per_core(*self),
    {
        match self {
            CacheLevel::L3 => false,
            _ => true,
        }
    }
}

/// The size of one cache instance and the total over all instances, in kilobytes.
#[derive(Clone, Copy, Debug, PartialEq, Eq, Structural)]
pub struct CacheSize {
    pub per_unit_kb: u32,
    pub total_kb: u128,
}

pub open spec fn total_for(level: CacheLevel, per_unit_kb: u32, physical_cores: u64) -> u128 {
    if is_per_core(level) {
        (per_unit_kb * physical_cores) as u128
    } else {
        per_unit_kb as u128
    }
}

/// The size record of a cache level: a per-core level counts once per physical
/// core, a shared level once.
pub fn cache_size(level: CacheLevel, per_unit_kb: u32, physical_cores: u64) -> (r: CacheSize)
    ensures
        r.per_unit_kb == per_unit_kb,
        r.total_kb == total_for(level, per_unit_kb, physical_cores),
        is_per_core(level) ==> r.total_kb == per_unit_kb * physical_cores,
        !is_per_core(level) ==> r.total_kb == per_unit_kb,
{
    let total: u128 = if level.per_core() {
        assert(per_unit_kb * physical_cores <= u32::MAX * u64::MAX) by (nonlinear_arith);
        per_unit_kb as u128 * physical_cores as u128
    } else {
        per_unit_kb as u128
    };
    CacheSize { per_unit_kb, total_kb: total }
}

pub open spec fn sized(level: CacheLevel, kb: Option<u32>, physical_cores: u64) -> Option<
    CacheSize,
> {
    match kb {
        Some(n) => Some(CacheSize { per_unit_kb: n, total_kb: total_for(level, n, physical_cores) }),
        None => None,
    }
}

pub fn sized_exec(level: CacheLevel, kb: Option<u32>, physical_cores: u64) -> (r: Option<
    CacheSize,
>)
    ensures
        r == sized(level, kb, physical_cores),
{
    match kb {
        Some(n) => Some(cache_size(level, n, physical_cores)),
        None => None,
    }
}

/// Kilobytes written as `n` megabytes, where that fits in a `u32`.
pub open spec fn megabytes(n: Option<nat>) -> Option<u32> {
    match n {
        Some(m) => if m * 1024 <= u32::MAX {
            Some((m * 1024) as u32)
        } else {
            None
        },
        None => None,
    }
}

/// A cache size in kilobytes from its text: `K` or `KB` after the number means
/// kilobytes, `M` or `MB` megabytes, and a bare number is in kilobytes.
pub open spec fn cache_size_kb(s: Seq<char>) -> Option<u32> {
    let n = s.len();
    if n >= 2 && s[n - 2] == 'K' && s[n - 1] == 'B' {
        parse_u32(s.take(n - 2))
    } else if n >= 1 && s[n - 1] == 'K' {
        parse_u32(s.take(n - 1))
    } else if n >= 2 && s[n - 2] == 'M' && s[n - 1] == 'B' {
        megabytes(parse_unsigned(s.take(n - 2), u32::MAX as nat))
    } else if n >= 1 && s[n - 1] == 'M' {
        megabytes(parse_unsigned(s.take(n - 1), u32::MAX as nat))
    } else {
        parse_u32(s)
    }
}

fn parse_u32_at(v: &Vec<char>, lo: usize, hi: usize) -> (r: Option<u32>)
    requires
        lo <= hi <= v.len(),
    ensures
        r == parse_u32(v@.subrange(lo as int, hi as int)),
{
    match parse_unsigned_at(v, lo, hi, 0xffff_ffff) {
        Some(n) => Some(n as u32),
        None => None,
    }
}

fn megabytes_at(v: &Vec<char>, lo: usize, hi: usize) -> (r: Option<u32>)
    requires
        lo <= hi <= v.len(),
    ensures
        r == megabytes(parse_unsigned(v@.subrange(lo as int, hi as int), u32::MAX as nat)),
{
    match parse_unsigned_at(v, lo, hi, 0xffff_ffff) {
        Some(n) => if n <= 0x3f_ffff {
            Some((n * 1024) as u32)
        } else {
            None
        },
        None => None,
    }
}

/// `cache_size_kb` of `v[lo..hi]`.
pub fn cache_size_at(v: &Vec<char>, lo: usize, hi: usize) -> (r: Option<u32>)
    requires
        lo <= hi <= v.len(),
    ensures
        r == cache_size_kb(v@.subrange(lo as int, hi as int)),
{
    let ghost s = v@.subrange(lo as int, hi as int);
    let n = hi - lo;
    if n >= 2 && v[hi - 2] == 'K' && v[hi - 1] == 'B' {
        assert(s.take(n - 2) == v@.subrange(lo as int, hi - 2));
        parse_u32_at(v, lo, hi - 2)
    } else if n >= 1 && v[hi - 1] == 'K' {
        assert(s.take(n - 1) == v@.subrange(lo as int, hi - 1));
        parse_u32_at(v, lo, hi - 1)
    } else if n >= 2 && v[hi - 2] == 'M' && v[hi - 1] == 'B' {
        assert(s.take(n - 2) == v@.subrange(lo as int, hi - 2));
        megabytes_at(v, lo, hi - 2)
    } else if n >= 1 && v[hi - 1] == 'M' {
        assert(s.take(n - 1) == v@.subrange(lo as int, hi - 1));
        megabytes_at(v, lo, hi - 1)
    } else {
        parse_u32_at(v, lo, hi)
    }
}

/// Parses a cache size such as `"32K"`, `"2M"` or `"1024"` to kilobytes;
/// text that is not such a size gives `None`.
pub fn parse_cache_size(size: &str) -> (r: Option<u32>)
    ensures
        r == cache_size_kb(size@),
{
    let v = chars_of(size);
    assert(v@.subrange(0, v@.len() as int) == v@);
    cache_size_at(&v, 0, v.len())
}


/// One cache of the first processor as the kernel's cache tree describes it:
/// the raw contents of its `level`, `type` and `size` entries.
pub struct CacheIndex {
    pub level: String,
    pub kind: String,
    pub size: String,
}

pub open spec fn level_named(s: Seq<char>) -> Option<CacheLevel> {
    if s == "1"@ {
        Some(CacheLevel::L1)
    } else if s == "2"@ {
        Some(CacheLevel::L2)
    } else if s == "3"@ {
        Some(CacheLevel::L3)
    } else {
        None
    }
}

pub open spec fn type_named(s: Seq<char>) -> Option<CacheType> {
    if s == "Data"@ {
        Some(CacheType::Data)
    } else if s == "Instruction"@ {
        Some(CacheType::Instruction)
    } else if s == "Unified"@ {
        Some(CacheType::Unified)
    } else {
        None
    }
}

/// What one cache entry reports, where its level, its type and its size all read.
pub open spec fn entry_reading(e: CacheIndex) -> Option<(CacheLevel, CacheType, u32)> {
    match (level_named(trim(e.level@)), type_named(trim(e.kind@)), cache_size_kb(trim(e.size@))) {
        (Some(l), Some(t), Some(n)) => Some((l, t, n)),
        _ => None,
    }
}

/// The size that the last entry for `level` and `kind` reports.
pub open spec fn last_reading(es: Seq<CacheIndex>, level: CacheLevel, kind: CacheType) -> Option<
    u32,
>
    decreases es.len(),
{
    if es.len() == 0 {
        None
    } else {
        match entry_reading(es.last()) {
            Some((l, t, n)) if l == level && t == kind => Some(n),
            _ => last_reading(es.drop_last(), level, kind),
        }
    }
}

fn trimmed_chars(s: &String) -> (r: (Vec<char>, usize, usize))
    ensures
        r.1 <= r.2 <= r.0.len(),
        r.0@.subrange(r.1 as int, r.2 as int) == trim(s@),
{
    let v = chars_of(s.as_str());
    let (a, b) = trim_bounds(&v, 0, v.len());
    assert(v@.subrange(0, v@.len() as int) == v@);
    (v, a, b)
}

fn read_entry(e: &CacheIndex) -> (r: Option<(CacheLevel, CacheType, u32)>)
    ensures
        r == entry_reading(*e),
{
    let (lv, la, lb) = trimmed_chars(&e.level);
    let (tv, ta, tb) = trimmed_chars(&e.kind);
    let (sv, sa, sb) = trimmed_chars(&e.size);
    let n = match cache_size_at(&sv, sa, sb) {
        Some(n) => n,
        None => return None,
    };
    let level = if eq_at(&lv, la, lb, &chars_of("1")) {
        CacheLevel::L1
    } else if eq_at(&lv, la, lb, &chars_of("2")) {
        CacheLevel::L2
    } else if eq_at(&lv, la, lb, &chars_of("3")) {
        CacheLevel::L3
    } else {
        return None;
    };
    let kind = if eq_at(&tv, ta, tb, &chars_of("Data")) {
        CacheType::Data
    } else if eq_at(&tv, ta, tb, &chars_of("Instruction")) {
        CacheType::Instruction
    } else if eq_at(&tv, ta, tb, &chars_of("Unified")) {
        CacheType::Unified
    } else {
        return None;
    };
    Some((level, kind, n))
}

fn last_reading_exec(rs: &Vec<Option<(CacheLevel, CacheType, u32)>>, es: Ghost<Seq<CacheIndex>>, level: CacheLevel, kind: CacheType) -> (r: Option<u32>)
    requires
        rs.len() == es@.len(),
        forall|i: int| 0 <= i < rs.len() ==> rs@[i] == entry_reading(#[trigger] es@[i]),
    ensures
        r == last_reading(es@, level, kind),
{
    let mut r: Option<u32> = None;
    let mut i: usize = 0;
    while i < rs.len()
        invariant
            i <= rs.len() == es@.len(),
            forall|j: int| 0 <= j < rs.len() ==> rs@[j] == entry_reading(#[trigger] es@[j]),
            r == last_reading(es@.take(i as int), level, kind),
        decreases rs.len() - i,
    {
        assert(es@.take(i + 1).drop_last() == es@.take(i as int));
        assert(es@.take(i + 1).last() == es@[i as int]);
        match rs[i] {
            Some((l, t, n)) => {
                if l == level && t == kind {
                    r = Some(n);
                }
            },
            None => {},
        }
        i += 1;
    }
    assert(es@.take(i as int) =~= es@);
    r
}

/// The cache levels that the rest of the library reports.
#[derive(Clone, Copy, Debug, PartialEq, Eq, Structural)]
pub struct CacheTable {
    pub l1i: Option<CacheSize>,
    pub l1d: Option<CacheSize>,
    pub l2: Option<CacheSize>,
    pub l3: Option<CacheSize>,
}

/// The table that the kernel's cache entries give, on a machine with
/// `physical_cores` cores.
pub open spec fn table_of(es: Seq<CacheIndex>, physical_cores: u64) -> CacheTable {
    CacheTable {
        l1i: sized(CacheLevel::L1, last_reading(es, CacheLevel::L1, CacheType::Instruction), physical_cores),
        l1d: sized(CacheLevel::L1, last_reading(es, CacheLevel::L1, CacheType::Data), physical_cores),
        l2: sized(CacheLevel::L2, last_reading(es, CacheLevel::L2, CacheType::Unified), physical_cores),
        l3: sized(CacheLevel::L3, last_reading(es, CacheLevel::L3, CacheType::Unified), physical_cores),
    }
}

/// Reads the cache table from the kernel's cache entries; where two entries
/// describe the same level and type, the later one counts.
pub fn cache_table(entries: &Vec<CacheIndex>, physical_cores: u64) -> (r: CacheTable)
    ensures
        r == table_of(entries@, physical_cores),
{
    let mut rs: Vec<Option<(CacheLevel, CacheType, u32)>> = Vec::new();
    let mut i: usize = 0;
    while i < entries.len()
        invariant
            i <= entries.len(),
            rs.len() == i,
            forall|j: int| 0 <= j < i ==> rs@[j] == entry_reading(#[trigger] entries@[j]),
        decreases entries.len() - i,
    {
        rs.push(read_entry(&entries[i]));
        i += 1;
    }
    let es = Ghost(entries@);
    CacheTable {
        l1i: sized_exec(CacheLevel::L1, last_reading_exec(&rs, es, CacheLevel::L1, CacheType::Instruction), physical_cores),
        l1d: sized_exec(CacheLevel::L1, last_reading_exec(&rs, es, CacheLevel::L1, CacheType::Data), physical_cores),
        l2: sized_exec(CacheLevel::L2, last_reading_exec(&rs, es, CacheLevel::L2, CacheType::Unified), physical_cores),
        l3: sized_exec(CacheLevel::L3, last_reading_exec(&rs, es, CacheLevel::L3, CacheType::Unified), physical_cores),
    }
}


/// The entry of the table for a level and a type.
pub open spec fn table_entry(t: CacheTable, level: CacheLevel, kind: CacheType) -> Option<CacheSize> {
    match (level, kind) {
        (CacheLevel::L1, CacheType::Instruction) => t.l1i,
        (CacheLevel::L1, CacheType::Data) => t.l1d,
        (CacheLevel::L2, CacheType::Unified) => t.l2,
        (CacheLevel::L3, CacheType::Unified) => t.l3,
        _ => None,
    }
}

impl CacheTable {
    /// The size of the cache of `level` and `kind`, where it is known; the
    /// table tracks the first-level instruction and data caches and the
    /// unified second and third levels.
    pub fn get(&self, level: CacheLevel, kind: CacheType) -> (r: Option<CacheSize>)
        ensures
            r == table_entry(*self, level, kind),
    {
        match (level, kind) {
            (CacheLevel::L1, CacheType::Instruction) => self.l1i,
            (CacheLevel::L1, CacheType::Data) => self.l1d,
            (CacheLevel::L2, CacheType::Unified) => self.l2,
            (CacheLevel::L3, CacheType::Unified) => self.l3,
            _ => None,
        }
    }
}

} // verus!
