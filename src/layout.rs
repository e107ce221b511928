//! Text layout: flag lists wrapped to a width, and a logo beside the facts.
use vstd::prelude::*;
use crate::text::{chars_of, texts};

verus! {

broadcast use vstd::string::group_string_axioms;

/// Where the wrapping of a word list stands: the finished lines, the line
/// being filled, and whether that line has a word yet.
pub struct WrapState {
    pub done: Seq<Seq<char>>,
    pub current: Seq<char>,
    pub has_word: bool,
}

/// Adds one word: on the current line after `sep` where the line keeps within
/// `width`, else at the start of a new line that begins with `indent`.
pub open spec fn wrap_step(st: WrapState, w: Seq<char>, sep: Seq<char>, indent: Seq<char>, width: nat) -> WrapState {
    if st.current.len() + w.len() + sep.len() > width {
        WrapState { done: st.done.push(st.current), current: indent + w, has_word: true }
    } else if st.has_word {
        WrapState { current: st.current + sep + w, ..st }
    } else {
        WrapState { current: st.current + w, has_word: true, ..st }
    }
}

pub open spec fn wrap_run(st: WrapState, ws: Seq<Seq<char>>, sep: Seq<char>, indent: Seq<char>, width: nat) -> WrapState
    decreases ws.len(),
{
    if ws.len() == 0 {
        st
    } else {
        wrap_step(wrap_run(st, ws.drop_last(), sep, indent, width), ws.last(), sep, indent, width)
    }
}

/// The lines of `ws` laid out after `label`, joined by `sep`, each further
/// line starting with `indent`, broken before a word that would pass `width`.
pub open spec fn wrapped(ws: Seq<Seq<char>>, label: Seq<char>, sep: Seq<char>, indent: Seq<char>, width: nat) -> Seq<Seq<char>> {
    let st = wrap_run(WrapState { done: Seq::empty(), current: label, has_word: false }, ws, sep, indent, width);
    st.done.push(st.current)
}

fn append_str(s: &mut String, t: &str)
    ensures
        final(s)@ == old(s)@ + t@,
{
    s.append(t);
}

/// Wraps a word list; see `wrapped`.
pub fn wrap_words(words: &Vec<String>, label: &str, sep: &str, indent: &str, width: usize) -> (r: Vec<String>)
    ensures
        texts(r@) == wrapped(texts(words@), label@, sep@, indent@, width as nat),
{
    let ghost ws = texts(words@);
    let mut done: Vec<String> = Vec::new();
    let mut current = label.to_string();
    let mut current_len: usize = chars_of(label).len();
    let sep_len = chars_of(sep).len();
    let mut has_word = false;
    let mut i: usize = 0;
    assert(texts(done@) =~= Seq::<Seq<char>>::empty());
    assert(ws.take(0) =~= Seq::<Seq<char>>::empty());
    while i < words.len()
        invariant
            i <= words.len(),
            ws == texts(words@),
            sep_len == sep@.len(),
            current_len == current@.len(),
            wrap_run(WrapState { done: Seq::empty(), current: label@, has_word: false }, ws.take(i as int), sep@, indent@, width as nat)
                == (WrapState { done: texts(done@), current: current@, has_word }),
        decreases words.len() - i,
    {
        assert(ws.take(i + 1).drop_last() == ws.take(i as int));
        assert(ws.take(i + 1).last() == words@[i as int]@);
        let w = &words[i];
        let w_len = chars_of(w.as_str()).len();
        if current_len as u128 + w_len as u128 + sep_len as u128 > width as u128 {
            let ghost before = texts(done@);
            done.push(current);
            assert(texts(done@) == before.push(current@));
            current = indent.to_string();
            append_str(&mut current, w.as_str());
            current_len = chars_of(current.as_str()).len();
            has_word = true;
        } else if has_word {
            append_str(&mut current, sep);
            append_str(&mut current, w.as_str());
            current_len = chars_of(current.as_str()).len();
        } else {
            append_str(&mut current, w.as_str());
            current_len = chars_of(current.as_str()).len();
            has_word = true;
        }
        i += 1;
    }
    assert(ws.take(i as int) == ws);
    let ghost before = texts(done@);
    done.push(current);
    assert(texts(done@) == before.push(current@));
    done
}

/// `s` padded with spaces to `width` characters.
pub open spec fn pad(s: Seq<char>, width: nat) -> Seq<char> {
    if s.len() >= width {
        s
    } else {
        s + Seq::new((width - s.len()) as nat, |i: int| ' ')
    }
}

/// The widest line's length in characters.
pub open spec fn widest(ls: Seq<Seq<char>>) -> nat
    decreases ls.len(),
{
    if ls.len() == 0 {
        0
    } else {
        let w = widest(ls.drop_last());
        if ls.last().len() > w {
            ls.last().len()
        } else {
            w
        }
    }
}

pub open spec fn line_or_empty(ls: Seq<Seq<char>>, i: int) -> Seq<char> {
    if 0 <= i < ls.len() {
        ls[i]
    } else {
        Seq::empty()
    }
}

/// Row `i` of a logo beside the facts: the logo line padded to the logo's
/// width, three spaces, then the fact line.
pub open spec fn row(logo: Seq<Seq<char>>, info: Seq<Seq<char>>, i: int) -> Seq<char> {
    pad(line_or_empty(logo, i), widest(logo)) + "   "@ + line_or_empty(info, i)
}

fn push_spaces(s: &mut String, n: usize)
    ensures
        final(s)@ == old(s)@ + Seq::new(n as nat, |i: int| ' '),
{
    let mut k: usize = 0;
    while k < n
        invariant
            k <= n,
            s@ == old(s)@ + Seq::new(k as nat, |i: int| ' '),
        decreases n - k,
    {
        append_str(s, " ");
        proof {
            reveal_strlit(" ");
        }
        assert(old(s)@ + Seq::new((k + 1) as nat, |i: int| ' ') =~= old(s)@ + Seq::new(k as nat, |i: int| ' ') + " "@);
        k += 1;
    }
}

/// Lays out a logo and fact lines side by side, as many rows as the longer
/// of the two has lines.
pub fn side_by_side(logo: &Vec<String>, info: &Vec<String>) -> (r: Vec<String>)
    ensures
        r.len() == if logo.len() > info.len() {
            logo.len()
        } else {
            info.len()
        },
        forall|i: int| 0 <= i < r.len() ==> #[trigger] r@[i]@ == row(texts(logo@), texts(info@), i),
{
    let ghost lv = texts(logo@);
    let ghost iv = texts(info@);
    let mut lens: Vec<usize> = Vec::new();
    let mut width: usize = 0;
    let mut j: usize = 0;
    while j < logo.len()
        invariant
            j <= logo.len(),
            lv == texts(logo@),
            lens.len() == j,
            forall|k: int| 0 <= k < j ==> lens@[k] == #[trigger] lv[k].len(),
            width == widest(lv.take(j as int)),
        decreases logo.len() - j,
    {
        assert(lv.take(j + 1).drop_last() == lv.take(j as int));
        let n = chars_of(logo[j].as_str()).len();
        lens.push(n);
        if n > width {
            width = n;
        }
        j += 1;
    }
    assert(lv.take(j as int) == lv);
    let rows = if logo.len() > info.len() {
        logo.len()
    } else {
        info.len()
    };
    let mut r: Vec<String> = Vec::new();
    let mut i: usize = 0;
    while i < rows
        invariant
            i <= rows,
            rows == (if logo.len() > info.len() { logo.len() } else { info.len() }),
            lv == texts(logo@),
            iv == texts(info@),
            lens.len() == logo.len(),
            forall|k: int| 0 <= k < logo.len() ==> lens@[k] == #[trigger] lv[k].len(),
            width == widest(lv),
            r.len() == i,
            forall|k: int| 0 <= k < i ==> #[trigger] r@[k]@ == row(lv, iv, k),
        decreases rows - i,
    {
        let mut line = String::new();
        if i < logo.len() {
            append_str(&mut line, logo[i].as_str());
            if lens[i] < width {
                push_spaces(&mut line, width - lens[i]);
            }
        } else {
            push_spaces(&mut line, width);
            assert(Seq::<char>::empty() + Seq::new(width as nat, |k: int| ' ') =~= Seq::new(width as nat, |k: int| ' '));
        }
        assert(line@ == pad(line_or_empty(lv, i as int), width as nat));
        append_str(&mut line, "   ");
        if i < info.len() {
            append_str(&mut line, info[i].as_str());
        } else {
            assert(line@ + Seq::<char>::empty() =~= line@);
        }
        r.push(line);
        i += 1;
    }
    r
}

} // verus!
