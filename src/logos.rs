//! The logo catalog: a vendor key to the lines of its colored ASCII-art logo.
use vstd::prelude::*;
use crate::text::{chars_of, digit_value, eq_at, is_digit, split_lines, text_lines, texts};

verus! {

/// Terminal color escape sequences.
pub const C_FG_BLACK: &'static str = "\x1b[30;1m";
pub const C_FG_RED: &'static str = "\x1b[31;1m";
pub const C_FG_GREEN: &'static str = "\x1b[32;1m";
pub const C_FG_YELLOW: &'static str = "\x1b[33;1m";
pub const C_FG_BLUE: &'static str = "\x1b[34;1m";
pub const C_FG_MAGENTA: &'static str = "\x1b[35;1m";
pub const C_FG_CYAN: &'static str = "\x1b[36;1m";
pub const C_FG_WHITE: &'static str = "\x1b[37;1m";
pub const C_FG_B_BLACK: &'static str = "\x1b[90;1m";
pub const C_FG_B_WHITE: &'static str = "\x1b[97;1m";
pub const COLOR_RESET: &'static str = "\x1b[m";

pub const ASCII_AMD: &'static str = "\
$C2          '###############             \n\
$C2             ,#############            \n\
$C2                      .####            \n\
$C2              #.      .####            \n\
$C2            :##.      .####            \n\
$C2           :###.      .####            \n\
$C2           #########.   :##            \n\
$C2           #######.       ;            \n\
$C1                                       \n\
$C1    ###     ###      ###   #######     \n\
$C1   ## ##    #####  #####   ##     ##   \n\
$C1  ##   ##   ### #### ###   ##      ##  \n\
$C1 #########  ###  ##  ###   ##      ##  \n\
$C1##       ## ###      ###   ##     ##   \n\
$C1##       ## ###      ###   #######     \n";

pub const ASCII_INTEL_NEW: &'static str = "\
$C1  MMM                 oddl                   MMN   \n\
$C1  MMM                 dMMN                   MMN   \n\
$C1  ...  ....   ...     dMMM..      .cc.       NMN   \n\
$C1  MMM  :MMMdWMMMMMX.  dMMMMM,  .XMMMMMMNo    MMN   \n\
$C1  MMM  :MMMp    dMMM  dMMX   .NMW      WMN.  MMN   \n\
$C1  MMM  :MMM      WMM  dMMK   kMMXooooooNMMx  MMN   \n\
$C1  MMM  :MMM      NMM  dMMK   dMMX            MMN   \n\
$C1  MMM  :MMM      NMM  dMMMoo  OMM0....:Nx.   MMN   \n\
$C1  MMM  :WWW      XWW   lONMM   'xXMMMMNOc    MMN   \n";

pub const ASCII_ARM: &'static str = "\
$C1   #####  ##   # #####  ## ####  ######   \n\
$C1 ###    ####   ###      ####  ###   ###   \n\
$C1###       ##   ###      ###    ##    ###  \n\
$C1 ###    ####   ###      ###    ##    ###  \n\
$C1  ######  ##   ###      ###    ##    ###  \n";

pub const ASCII_NVIDIA: &'static str = "\
$C1               'cccccccccccccccccccccccccc   \n\
$C1               ;oooooooooooooooooooooooool   \n\
$C1           .:::.     .oooooooooooooooooool   \n\
$C1      .:cll;   ,c:::.     cooooooooooooool   \n\
$C1   ,clo'      ;.   oolc:     ooooooooooool   \n\
$C1.cloo    ;cclo .      .olc.    coooooooool   \n\
oooo   :lo,    ;ll;    looc    :oooooooool      \n\
 oooc   ool.   ;oooc;clol    :looooooooool      \n\
  :ooc   ,ol;  ;oooooo.   .cloo;     loool      \n\
    ool;   .olc.       ,:lool        .lool      \n\
      ool:.    ,::::ccloo.        :clooool      \n\
         oolc::.            ':cclooooooool      \n\
               ;oooooooooooooooooooooooool      \n\
                                                \n\
$C2######.  ##   ##  ##  ######   ##    ###     \n\
$C2##   ##  ##   ##  ##  ##   ##  ##   #: :#    \n\
$C2##   ##   ## ##   ##  ##   ##  ##  #######   \n\
$C2##   ##    ###    ##  ######   ## ##     ##  \n";

pub const ASCII_POWERPC: &'static str = "\
$C1     //////                                   //////    /////  \n\
$C1    //// /// ,//// /// ///  /// /////  ///// /// ////////      \n\
$C1   */////// /// ///////////// /// /// ///// ////////////       \n\
$C1   ///     /// /// ///////// ///     ///   ///        ////.    \n\
$C1  ///      /////   //  ///     //// ///   ///          /////   \n";

pub const ASCII_APPLE: &'static str = "\
$C1                    'c.                     \n\
$C2                 ,xNMM.                     \n\
$C3               .OMMMMo                      \n\
$C4               OMMM0,                       \n\
$C5     .;loddo:' loolloddol;.                 \n\
$C6   cKMMMMMMMMMMNWMMMMMMMMMM0:               \n\
$C7 .KMMMMMMMMMMMMMMMMMMMMMMMWd.               \n\
$C1 XMMMMMMMMMMMMMMMMMMMMMMMX.                 \n\
$C2;MMMMMMMMMMMMMMMMMMMMMMMM:                  \n\
$C3:MMMMMMMMMMMMMMMMMMMMMMMM:                  \n\
$C4.MMMMMMMMMMMMMMMMMMMMMMMMX.                 \n\
$C5 kMMMMMMMMMMMMMMMMMMMMMMMMWd.               \n\
$C6 .XMMMMMMMMMMMMMMMMMMMMMMMMMMk              \n\
$C7  .XMMMMMMMMMMMMMMMMMMMMMMMMK.              \n\
$C1    kMMMMMMMMMMMMMMMMMMMMMMd                \n\
$C2     ;KMMMMMMMWXXWMMMMMMMk.                 \n\
$C3       .cooc,.    .,coo:.                   \n";

/// `s` with each placeholder `$C<d>` (`d` from 1 to the number of colors)
/// replaced by the `d`-th color and each `$CR` by the reset sequence.
pub open spec fn colorize(s: Seq<char>, colors: Seq<Seq<char>>) -> Seq<char>
    decreases s.len(),
{
    if s.len() == 0 {
        s
    } else if s.len() >= 3 && s[0] == '$' && s[1] == 'C' && is_digit(s[2]) && 1 <= digit_value(
        s[2],
    ) <= colors.len() {
        colors[digit_value(s[2]) - 1] + colorize(s.skip(3), colors)
    } else if s.len() >= 3 && s[0] == '$' && s[1] == 'C' && s[2] == 'R' {
        COLOR_RESET@ + colorize(s.skip(3), colors)
    } else {
        seq![s[0]] + colorize(s.drop_first(), colors)
    }
}

/// The art and the colors of the logo that a vendor key selects.
pub open spec fn logo_art(id: Seq<char>) -> Option<(Seq<char>, Seq<Seq<char>>)> {
    if id == "AuthenticAMD"@ || id == "amd"@ {
        Some((ASCII_AMD@, seq![C_FG_WHITE@, C_FG_RED@]))
    } else if id == "GenuineIntel"@ || id == "intel"@ {
        Some((ASCII_INTEL_NEW@, seq![C_FG_CYAN@]))
    } else if id == "ARM"@ || id == "arm"@ {
        Some((ASCII_ARM@, seq![C_FG_CYAN@]))
    } else if id == "NVIDIA"@ || id == "nvidia"@ {
        Some((ASCII_NVIDIA@, seq![C_FG_GREEN@, C_FG_WHITE@]))
    } else if id == "PowerPC"@ || id == "powerpc"@ {
        Some((ASCII_POWERPC@, seq![C_FG_YELLOW@]))
    } else if id == "Apple"@ || id == "apple"@ {
        Some((
            ASCII_APPLE@,
            seq![C_FG_RED@, C_FG_YELLOW@, C_FG_GREEN@, C_FG_CYAN@, C_FG_BLUE@, C_FG_MAGENTA@, C_FG_WHITE@],
        ))
    } else {
        None
    }
}

/// The colored lines of the logo for a vendor key, if the catalog has one.
pub open spec fn logo_of(id: Seq<char>) -> Option<Seq<Seq<char>>> {
    match logo_art(id) {
        Some((raw, colors)) => Some(text_lines(colorize(raw, colors))),
        None => None,
    }
}

pub open spec fn lines_view(r: Option<Vec<String>>) -> Option<Seq<Seq<char>>> {
    match r {
        Some(v) => Some(texts(v@)),
        None => None,
    }
}

pub open spec fn char_lists(v: Seq<Vec<char>>) -> Seq<Seq<char>> {
    v.map_values(|c: Vec<char>| c@)
}

fn append_chars(out: &mut Vec<char>, c: &Vec<char>)
    ensures
        final(out)@ == old(out)@ + c@,
{
    let mut i: usize = 0;
    while i < c.len()
        invariant
            i <= c.len(),
            out@ == old(out)@ + c@.take(i as int),
        decreases c.len() - i,
    {
        out.push(c[i]);
        assert(c@.take(i + 1) == c@.take(i as int).push(c@[i as int]));
        i += 1;
    }
    assert(c@.take(i as int) == c@);
}

/// Replaces the color placeholders of `raw`.
fn colorize_exec(raw: &str, colors: &Vec<Vec<char>>) -> (r: Vec<char>)
    ensures
        r@ == colorize(raw@, char_lists(colors@)),
{
    let ghost cs = char_lists(colors@);
    let v = chars_of(raw);
    let reset = chars_of(COLOR_RESET);
    let n = v.len();
    let mut out: Vec<char> = Vec::new();
    let mut i: usize = 0;
    assert(v@.skip(0) =~= v@);
    while i < n
        invariant
            i <= n == v.len(),
            v@ == raw@,
            reset@ == COLOR_RESET@,
            cs == char_lists(colors@),
            colorize(raw@, cs) == out@ + colorize(v@.skip(i as int), cs),
        decreases n - i,
    {
        let ghost s = v@.skip(i as int);
        let ghost before = out@;
        if n - i >= 3 && v[i] == '$' && v[i + 1] == 'C' && '1' <= v[i + 2] && v[i + 2] <= '9' && ((
        v[i + 2] as u32 - '0' as u32) as usize) <= colors.len() {
            let d = (v[i + 2] as u32 - '0' as u32) as usize;
            assert(s[0] == v@[i as int] && s[1] == v@[i + 1] && s[2] == v@[i + 2]);
            assert(digit_value(s[2]) == d);
            assert(s.skip(3) =~= v@.skip(i + 3));
            assert(cs[d - 1] == colors@[d - 1]@);
            append_chars(&mut out, &colors[d - 1]);
            assert(before + (cs[d - 1] + colorize(s.skip(3), cs)) =~= out@ + colorize(s.skip(3), cs));
            i += 3;
        } else if n - i >= 3 && v[i] == '$' && v[i + 1] == 'C' && v[i + 2] == 'R' {
            assert(s[0] == v@[i as int] && s[1] == v@[i + 1] && s[2] == v@[i + 2]);
            assert(s.skip(3) =~= v@.skip(i + 3));
            append_chars(&mut out, &reset);
            assert(before + (COLOR_RESET@ + colorize(s.skip(3), cs)) =~= out@ + colorize(s.skip(3), cs));
            i += 3;
        } else {
            assert(s[0] == v@[i as int]);
            if n - i >= 3 {
                assert(s[1] == v@[i + 1] && s[2] == v@[i + 2]);
            }
            assert(s.drop_first() =~= v@.skip(i + 1));
            out.push(v[i]);
            assert(before + (seq![s[0]] + colorize(s.drop_first(), cs)) =~= out@ + colorize(s.drop_first(), cs));
            i += 1;
        }
    }
    assert(v@.skip(i as int) =~= Seq::<char>::empty());
    assert(out@ + Seq::<char>::empty() =~= out@);
    out
}


fn colored_lines(raw: &str, colors: Vec<Vec<char>>) -> (r: Vec<String>)
    ensures
        texts(r@) == text_lines(colorize(raw@, char_lists(colors@))),
{
    let v = colorize_exec(raw, &colors);
    split_lines(&v)
}

proof fn lemma_char_lists(v: Seq<Vec<char>>, s: Seq<Seq<char>>)
    requires
        v.len() == s.len(),
        forall|i: int| 0 <= i < v.len() ==> #[trigger] v[i]@ == s[i],
    ensures
        char_lists(v) == s,
{
    assert(char_lists(v) =~= s);
}

fn logo_lines_for_vendor(vendor_id: &str) -> (r: Option<Vec<String>>)
    ensures
        lines_view(r) == logo_of(vendor_id@),
{
    let v = chars_of(vendor_id);
    let n = v.len();
    assert(v@.subrange(0, n as int) == v@);
    if eq_at(&v, 0, n, &chars_of("AuthenticAMD")) || eq_at(&v, 0, n, &chars_of("amd")) {
        let cs = vec![chars_of(C_FG_WHITE), chars_of(C_FG_RED)];
        proof {
            lemma_char_lists(cs@, seq![C_FG_WHITE@, C_FG_RED@]);
        }
        Some(colored_lines(ASCII_AMD, cs))
    } else if eq_at(&v, 0, n, &chars_of("GenuineIntel")) || eq_at(&v, 0, n, &chars_of("intel")) {
        let cs = vec![chars_of(C_FG_CYAN)];
        proof {
            lemma_char_lists(cs@, seq![C_FG_CYAN@]);
        }
        Some(colored_lines(ASCII_INTEL_NEW, cs))
    } else if eq_at(&v, 0, n, &chars_of("ARM")) || eq_at(&v, 0, n, &chars_of("arm")) {
        let cs = vec![chars_of(C_FG_CYAN)];
        proof {
            lemma_char_lists(cs@, seq![C_FG_CYAN@]);
        }
        Some(colored_lines(ASCII_ARM, cs))
    } else if eq_at(&v, 0, n, &chars_of("NVIDIA")) || eq_at(&v, 0, n, &chars_of("nvidia")) {
        let cs = vec![chars_of(C_FG_GREEN), chars_of(C_FG_WHITE)];
        proof {
            lemma_char_lists(cs@, seq![C_FG_GREEN@, C_FG_WHITE@]);
        }
        Some(colored_lines(ASCII_NVIDIA, cs))
    } else if eq_at(&v, 0, n, &chars_of("PowerPC")) || eq_at(&v, 0, n, &chars_of("powerpc")) {
        let cs = vec![chars_of(C_FG_YELLOW)];
        proof {
            lemma_char_lists(cs@, seq![C_FG_YELLOW@]);
        }
        Some(colored_lines(ASCII_POWERPC, cs))
    } else if eq_at(&v, 0, n, &chars_of("Apple")) || eq_at(&v, 0, n, &chars_of("apple")) {
        let cs = vec![
            chars_of(C_FG_RED),
            chars_of(C_FG_YELLOW),
            chars_of(C_FG_GREEN),
            chars_of(C_FG_CYAN),
            chars_of(C_FG_BLUE),
            chars_of(C_FG_MAGENTA),
            chars_of(C_FG_WHITE),
        ];
        proof {
            lemma_char_lists(
                cs@,
                seq![C_FG_RED@, C_FG_YELLOW@, C_FG_GREEN@, C_FG_CYAN@, C_FG_BLUE@, C_FG_MAGENTA@, C_FG_WHITE@],
            );
        }
        Some(colored_lines(ASCII_APPLE, cs))
    } else {
        None
    }
}

/// The colored lines of the logo for a vendor key (`"AuthenticAMD"` or
/// `"amd"`, `"GenuineIntel"` or `"intel"`, `"ARM"` or `"arm"`, `"NVIDIA"` or
/// `"nvidia"`, `"PowerPC"` or `"powerpc"`, `"Apple"` or `"apple"`), or `None`
/// where the catalog has no logo for the key.
pub fn get_logo_lines_for_vendor(vendor_id: &str) -> (r: Option<Vec<String>>)
    ensures
        lines_view(r) == logo_of(vendor_id@),
{
    logo_lines_for_vendor(vendor_id)
}

} // verus!
