//! Vendor keys: one canonical name per CPU maker, used for display and for
//! the logo catalog.
use vstd::prelude::*;
use crate::text::chars_of;

verus! {

/// A CPU maker.
#[derive(Clone, Copy, Debug, PartialEq, Eq, Structural)]
pub enum Vendor {
    Intel,
    Amd,
    Apple,
    Nvidia,
    PowerPc,
    Arm,
    Unknown,
}

pub open spec fn vendor_key(v: Vendor) -> Seq<char> {
    match v {
        Vendor::Intel => "GenuineIntel"@,
        Vendor::Amd => "AuthenticAMD"@,
        Vendor::Apple => "Apple"@,
        Vendor::Nvidia => "NVIDIA"@,
        Vendor::PowerPc => "PowerPC"@,
        Vendor::Arm => "ARM"@,
        Vendor::Unknown => "Unknown"@,
    }
}

/// Whether `c` is the lower-case ASCII letter `l`, in either case.
pub open spec fn same_letter(c: char, l: char) -> bool {
    c == l || ('A' <= c && c <= 'Z' && (c as u32) + 32 == (l as u32))
}

/// Whether `s` holds `frag` (lower-case ASCII) from position `i` on, ignoring
/// the case of ASCII letters.
pub open spec fn matches_at(s: Seq<char>, i: int, frag: Seq<char>) -> bool {
    &&& 0 <= i
    &&& i + frag.len() <= s.len()
    &&& forall|j: int| 0 <= j < frag.len() ==> same_letter(#[trigger] s[i + j], frag[j])
}

/// Whether `s` holds `frag` anywhere, ignoring the case of ASCII letters.
pub open spec fn contains_folded(s: Seq<char>, frag: Seq<char>) -> bool {
    exists|i: int| matches_at(s, i, frag)
}

/// Whether `s` is `word` (lower-case ASCII), ignoring the case of ASCII letters.
pub open spec fn equals_folded(s: Seq<char>, word: Seq<char>) -> bool {
    s.len() == word.len() && matches_at(s, 0, word)
}

/// The vendor that a name fragment in `s` points to. Fragments are tried in
/// this fixed order, so that a text naming two makers resolves to the first:
/// intel, amd, apple, nvidia, powerpc, arm.
pub open spec fn vendor_of(s: Seq<char>) -> Vendor {
    if contains_folded(s, "intel"@) {
        Vendor::Intel
    } else if contains_folded(s, "amd"@) {
        Vendor::Amd
    } else if contains_folded(s, "apple"@) {
        Vendor::Apple
    } else if contains_folded(s, "nvidia"@) {
        Vendor::Nvidia
    } else if contains_folded(s, "powerpc"@) {
        Vendor::PowerPc
    } else if contains_folded(s, "arm"@) {
        Vendor::Arm
    } else {
        Vendor::Unknown
    }
}

/// The vendor that a logo name chosen by the user stands for.
pub open spec fn logo_vendor(s: Seq<char>) -> Option<Vendor> {
    if equals_folded(s, "nvidia"@) {
        Some(Vendor::Nvidia)
    } else if equals_folded(s, "powerpc"@) {
        Some(Vendor::PowerPc)
    } else if equals_folded(s, "arm"@) {
        Some(Vendor::Arm)
    } else if equals_folded(s, "amd"@) {
        Some(Vendor::Amd)
    } else if equals_folded(s, "intel"@) {
        Some(Vendor::Intel)
    } else if equals_folded(s, "apple"@) {
        Some(Vendor::Apple)
    } else {
        None
    }
}

fn same_letter_exec(c: char, l: char) -> (r: bool)
    ensures
        r == same_letter(c, l),
{
    c == l || ('A' <= c && c <= 'Z' && (c as u32) + 32 == (l as u32))
}

fn matches_at_exec(v: &Vec<char>, i: usize, frag: &Vec<char>) -> (r: bool)
    ensures
        r == matches_at(v@, i as int, frag@),
{
    if i > v.len() || frag.len() > v.len() - i {
        return false;
    }
    let mut j: usize = 0;
    while j < frag.len()
        invariant
            i + frag.len() <= v.len(),
            j <= frag.len(),
            forall|k: int| 0 <= k < j ==> same_letter(#[trigger] v@[i + k], frag@[k]),
        decreases frag.len() - j,
    {
        if !same_letter_exec(v[i + j], frag[j]) {
            return false;
        }
        j += 1;
    }
    true
}

fn contains_folded_exec(v: &Vec<char>, frag: &Vec<char>) -> (r: bool)
    ensures
        r == contains_folded(v@, frag@),
{
    let mut i: usize = 0;
    while i < v.len()
        invariant
            i <= v.len(),
            forall|k: int| 0 <= k < i ==> !matches_at(v@, k, frag@),
        decreases v.len() - i,
    {
        if matches_at_exec(v, i, frag) {
            return true;
        }
        i += 1;
    }
    if matches_at_exec(v, i, frag) {
        return true;
    }
    assert forall|k: int| !matches_at(v@, k, frag@) by {
        if 0 <= k < i {
        }
    }
    false
}

pub fn equals_folded_exec(v: &Vec<char>, word: &Vec<char>) -> (r: bool)
    ensures
        r == equals_folded(v@, word@),
{
    v.len() == word.len() && matches_at_exec(v, 0, word)
}

impl Vendor {
    /// The canonical key of the vendor.
    pub fn key(&self) -> (r: &'static str)
        ensures
            r@ == vendor_key(*self),
    {
        match self {
            Vendor::Intel => "GenuineIntel",
            Vendor::Amd => "AuthenticAMD",
            Vendor::Apple => "Apple",
            Vendor::Nvidia => "NVIDIA",
            Vendor::PowerPc => "PowerPC",
            Vendor::Arm => "ARM",
            Vendor::Unknown => "Unknown",
        }
    }

    /// The vendor that a vendor id or a brand string names.
    pub fn from_text(s: &str) -> (r: Vendor)
        ensures
            r == vendor_of(s@),
    {
        let v = chars_of(s);
        if contains_folded_exec(&v, &chars_of("intel")) {
            Vendor::Intel
        } else if contains_folded_exec(&v, &chars_of("amd")) {
            Vendor::Amd
        } else if contains_folded_exec(&v, &chars_of("apple")) {
            Vendor::Apple
        } else if contains_folded_exec(&v, &chars_of("nvidia")) {
            Vendor::Nvidia
        } else if contains_folded_exec(&v, &chars_of("powerpc")) {
            Vendor::PowerPc
        } else if contains_folded_exec(&v, &chars_of("arm")) {
            Vendor::Arm
        } else {
            Vendor::Unknown
        }
    }

    /// The vendor whose logo a user asked for by name (`nvidia`, `powerpc`,
    /// `arm`, `amd`, `intel` or `apple`, in any case).
    pub fn from_logo_name(name: &str) -> (r: Option<Vendor>)
        ensures
            r == logo_vendor(name@),
    {
        let v = chars_of(name);
        if equals_folded_exec(&v, &chars_of("nvidia")) {
            Some(Vendor::Nvidia)
        } else if equals_folded_exec(&v, &chars_of("powerpc")) {
            Some(Vendor::PowerPc)
        } else if equals_folded_exec(&v, &chars_of("arm")) {
            Some(Vendor::Arm)
        } else if equals_folded_exec(&v, &chars_of("amd")) {
            Some(Vendor::Amd)
        } else if equals_folded_exec(&v, &chars_of("intel")) {
            Some(Vendor::Intel)
        } else if equals_folded_exec(&v, &chars_of("apple")) {
            Some(Vendor::Apple)
        } else {
            None
        }
    }
}

/// A text that names Intel anywhere, in any case, gives the Intel key, whatever
/// other maker it names as well.
pub proof fn law_intel_fragment_wins(s: Seq<char>)
    requires
        contains_folded(s, "intel"@),
    ensures
        vendor_of(s) == Vendor::Intel,
        vendor_key(vendor_of(s)) == "GenuineIntel"@,
{
}

/// A text that names AMD and not Intel gives the AMD key.
pub proof fn law_amd_fragment_without_intel(s: Seq<char>)
    requires
        contains_folded(s, "amd"@),
        !contains_folded(s, "intel"@),
    ensures
        vendor_of(s) == Vendor::Amd,
{
}

} // verus!
