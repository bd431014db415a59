//! Character-sequence utilities: conversion between `&str` and `Vec<char>`,
//! substring search, whitespace handling, tokenisation and trimming.
//!
//! All executable functions here are specified against spec functions over
//! `Seq<char>`, so that the encoder and the resolver can state their
//! contracts directly over string views.

use vstd::prelude::*;
use vstd::string::StrSliceExecFns;

verus! {

/// A character with the Unicode `White_Space` property, the class that
/// `char::is_whitespace` recognises.
pub open spec fn is_space_char(c: char) -> bool {
    ||| c == ' '
    ||| c == '\t'
    ||| c == '\n'
    ||| c == '\u{0B}'
    ||| c == '\u{0C}'
    ||| c == '\r'
    ||| c == '\u{85}'
    ||| c == '\u{A0}'
    ||| c == '\u{1680}'
    ||| (0x2000 <= c as u32 && c as u32 <= 0x200A)
    ||| c == '\u{2028}'
    ||| c == '\u{2029}'
    ||| c == '\u{202F}'
    ||| c == '\u{205F}'
    ||| c == '\u{3000}'
}

/// Decides Unicode whitespace, character by character.
pub fn is_space(c: char) -> (r: bool)
    ensures
        r == is_space_char(c),
{
    c == ' ' || c == '\t' || c == '\n' || c == '\u{0B}' || c == '\u{0C}' || c == '\r' || c
        == '\u{85}' || c == '\u{A0}' || c == '\u{1680}' || (0x2000 <= c as u32 && c as u32
        <= 0x200A) || c == '\u{2028}' || c == '\u{2029}' || c == '\u{202F}' || c == '\u{205F}' || c
        == '\u{3000}'
}

/// The characters of a string slice, in order.
pub fn to_chars(s: &str) -> (r: Vec<char>)
    ensures
        r@ == s@,
{
    let n = s.unicode_len();
    let mut r: Vec<char> = Vec::new();
    let mut i: usize = 0;
    while i < n
        invariant
            n == s@.len(),
            i <= n,
            r@ == s@.subrange(0, i as int),
        decreases n - i,
    {
        let c = s.get_char(i);
        r.push(c);
        i = i + 1;
        proof {
            assert(r@ =~= s@.subrange(0, i as int));
        }
    }
    proof {
        assert(r@ =~= s@);
    }
    r
}

/// Relies on `String: FromIterator<char>`: collecting characters yields the
/// string of exactly those characters, in order.
#[verifier::external_body]
pub fn chars_to_string(v: &Vec<char>) -> (r: String)
    ensures
        r@ == v@,
{
    v.iter().collect()
}

/// The copy of `s[a..b]`.
pub fn subvec(s: &Vec<char>, a: usize, b: usize) -> (r: Vec<char>)
    requires
        a <= b <= s@.len(),
    ensures
        r@ == s@.subrange(a as int, b as int),
{
    let mut r: Vec<char> = Vec::new();
    let mut i: usize = a;
    while i < b
        invariant
            a <= i <= b <= s@.len(),
            r@ == s@.subrange(a as int, i as int),
        decreases b - i,
    {
        r.push(s[i]);
        i = i + 1;
        proof {
            assert(r@ =~= s@.subrange(a as int, i as int));
        }
    }
    r
}

/// `needle` occurs in `hay` starting at position `i`.
pub open spec fn match_at(hay: Seq<char>, needle: Seq<char>, i: int) -> bool {
    &&& 0 <= i
    &&& i + needle.len() <= hay.len()
    &&& hay.subrange(i, i + needle.len() as int) == needle
}

/// The first position at or after `i` where `needle` occurs in `hay`.
pub open spec fn find_from(hay: Seq<char>, needle: Seq<char>, i: int) -> Option<int>
    decreases hay.len() + 1 - i,
{
    if i < 0 || i + needle.len() > hay.len() {
        None
    } else if match_at(hay, needle, i) {
        Some(i)
    } else {
        find_from(hay, needle, i + 1)
    }
}

/// The first position where `needle` occurs in `hay`, if any.
pub open spec fn spec_find(hay: Seq<char>, needle: Seq<char>) -> Option<int> {
    find_from(hay, needle, 0)
}

/// `needle` occurs somewhere in `hay`.
pub open spec fn spec_contains(hay: Seq<char>, needle: Seq<char>) -> bool {
    spec_find(hay, needle) is Some
}

/// A successful `find_from` names the first match at or after `i`.
pub proof fn lemma_find_from_some(hay: Seq<char>, needle: Seq<char>, i: int, j: int)
    requires
        find_from(hay, needle, i) == Some(j),
    ensures
        i <= j,
        match_at(hay, needle, j),
        forall|k: int| i <= k < j ==> !match_at(hay, needle, k),
    decreases hay.len() + 1 - i,
{
    if i < 0 || i + needle.len() > hay.len() {
    } else if match_at(hay, needle, i) {
    } else {
        lemma_find_from_some(hay, needle, i + 1, j);
    }
}

/// A failed `find_from` rules out every match at or after `i`.
pub proof fn lemma_find_from_none(hay: Seq<char>, needle: Seq<char>, i: int, k: int)
    requires
        find_from(hay, needle, i) is None,
        0 <= i <= k,
    ensures
        !match_at(hay, needle, k),
    decreases k - i,
{
    if i + needle.len() > hay.len() {
    } else if k == i {
    } else {
        lemma_find_from_none(hay, needle, i + 1, k);
    }
}

/// Containment is the existence of a match position.
pub proof fn lemma_contains_iff_exists(hay: Seq<char>, needle: Seq<char>)
    ensures
        spec_contains(hay, needle) <==> exists|k: int| match_at(hay, needle, k),
{
    if spec_contains(hay, needle) {
        let j = spec_find(hay, needle)->Some_0;
        lemma_find_from_some(hay, needle, 0, j);
        assert(match_at(hay, needle, j));
    } else {
        assert forall|k: int| !match_at(hay, needle, k) by {
            if k >= 0 {
                lemma_find_from_none(hay, needle, 0, k);
            }
        }
    }
}

/// `needle` occurs in `hay` at exactly position `i`, checked character by
/// character.
pub fn match_here(hay: &Vec<char>, needle: &Vec<char>, i: usize) -> (r: bool)
    requires
        i + needle@.len() <= hay@.len(),
    ensures
        r == match_at(hay@, needle@, i as int),
{
    let n = hay.len();
    let mut j: usize = 0;
    while j < needle.len()
        invariant
            n == hay@.len(),
            i + needle@.len() <= hay@.len(),
            j <= needle@.len(),
            forall|k: int| 0 <= k < j ==> hay@[i + k] == needle@[k],
        decreases needle@.len() - j,
    {
        if hay[i + j] != needle[j] {
            proof {
                if match_at(hay@, needle@, i as int) {
                    assert(hay@.subrange(i as int, i + needle@.len() as int)[j as int]
                        == needle@[j as int]);
                }
            }
            return false;
        }
        j = j + 1;
    }
    proof {
        assert(hay@.subrange(i as int, i + needle@.len() as int) =~= needle@);
    }
    true
}

/// The first occurrence of `needle` in `hay`, scanning left to right.
pub fn find_sub(hay: &Vec<char>, needle: &Vec<char>) -> (r: Option<usize>)
    ensures
        match r {
            Some(j) => spec_find(hay@, needle@) == Some(j as int),
            None => spec_find(hay@, needle@) is None,
        },
{
    if needle.len() > hay.len() {
        return None;
    }
    if needle.len() == 0 {
        proof {
            assert(hay@.subrange(0, 0) =~= needle@);
            assert(match_at(hay@, needle@, 0));
        }
        return Some(0);
    }
    let n = hay.len();
    let end = n - needle.len();
    let mut i: usize = 0;
    while i <= end
        invariant
            n == hay@.len(),
            1 <= needle@.len() <= hay@.len(),
            end == hay@.len() - needle@.len(),
            i <= end + 1,
            find_from(hay@, needle@, 0) == find_from(hay@, needle@, i as int),
        decreases end + 1 - i,
    {
        if match_here(hay, needle, i) {
            proof {
                assert(find_from(hay@, needle@, i as int) == Some(i as int));
            }
            return Some(i);
        }
        proof {
            assert(find_from(hay@, needle@, i as int) == find_from(hay@, needle@, i + 1));
        }
        i = i + 1;
    }
    proof {
        assert(find_from(hay@, needle@, i as int) is None);
    }
    None
}

/// `needle` occurs somewhere in `hay`, scanning left to right.
pub fn contains_sub(hay: &Vec<char>, needle: &Vec<char>) -> (r: bool)
    ensures
        r == spec_contains(hay@, needle@),
{
    match find_sub(hay, needle) {
        Some(_) => true,
        None => false,
    }
}

/// `s` without its leading whitespace.
pub open spec fn spec_skip_ws(s: Seq<char>) -> Seq<char>
    decreases s.len(),
{
    if s.len() == 0 {
        s
    } else if is_space_char(s[0]) {
        spec_skip_ws(s.drop_first())
    } else {
        s
    }
}

/// The longest whitespace-free prefix of `s`.
pub open spec fn spec_take_token(s: Seq<char>) -> Seq<char>
    decreases s.len(),
{
    if s.len() == 0 || is_space_char(s[0]) {
        Seq::empty()
    } else {
        seq![s[0]] + spec_take_token(s.drop_first())
    }
}

/// The first whitespace-delimited token of `s`, if any: what
/// `split_whitespace` would yield first.
pub open spec fn spec_first_token(s: Seq<char>) -> Option<Seq<char>> {
    if spec_skip_ws(s).len() == 0 {
        None
    } else {
        Some(spec_take_token(spec_skip_ws(s)))
    }
}

/// A sequence without whitespace is one whole token.
pub proof fn lemma_take_token_all(s: Seq<char>)
    requires
        forall|i: int| 0 <= i < s.len() ==> !is_space_char(#[trigger] s[i]),
    ensures
        spec_take_token(s) == s,
    decreases s.len(),
{
    if s.len() == 0 {
        assert(spec_take_token(s) =~= s);
    } else {
        assert forall|i: int| 0 <= i < s.drop_first().len() implies !is_space_char(
            #[trigger] s.drop_first()[i],
        ) by {
            assert(s.drop_first()[i] == s[i + 1]);
        }
        lemma_take_token_all(s.drop_first());
        assert(seq![s[0]] + s.drop_first() =~= s);
    }
}

/// `s` without its trailing whitespace.
pub open spec fn spec_trim_end(s: Seq<char>) -> Seq<char>
    decreases s.len(),
{
    if s.len() == 0 {
        s
    } else if is_space_char(s.last()) {
        spec_trim_end(s.drop_last())
    } else {
        s
    }
}

/// `s` without leading and trailing whitespace: what `str::trim` yields.
pub open spec fn spec_trim(s: Seq<char>) -> Seq<char> {
    spec_trim_end(spec_skip_ws(s))
}

/// The index of the first non-whitespace character at or after `i`, or the
/// length of `s` if all of the rest is whitespace.
fn scan_ws(s: &Vec<char>, from: usize) -> (r: usize)
    requires
        from <= s@.len(),
    ensures
        from <= r <= s@.len(),
        spec_skip_ws(s@.skip(from as int)) == s@.skip(r as int),
        r < s@.len() ==> !is_space_char(s@[r as int]),
        forall|k: int| from <= k < r ==> is_space_char(s@[k]),
{
    let mut i: usize = from;
    while i < s.len() && is_space(s[i])
        invariant
            from <= i <= s@.len(),
            spec_skip_ws(s@.skip(from as int)) == spec_skip_ws(s@.skip(i as int)),
            forall|k: int| from <= k < i ==> is_space_char(s@[k]),
        decreases s@.len() - i,
    {
        proof {
            assert(s@.skip(i as int).drop_first() =~= s@.skip(i + 1));
        }
        i = i + 1;
    }
    proof {
        if i < s@.len() {
            assert(spec_skip_ws(s@.skip(i as int)) == s@.skip(i as int));
        } else {
            assert(s@.skip(i as int) =~= Seq::<char>::empty());
        }
    }
    i
}

/// The first whitespace-delimited token, scanning from the left.
pub fn first_token(s: &Vec<char>) -> (r: Option<Vec<char>>)
    ensures
        match r {
            Some(t) => spec_first_token(s@) == Some(t@),
            None => spec_first_token(s@) is None,
        },
{
    proof {
        assert(s@.skip(0) =~= s@);
    }
    let start = scan_ws(s, 0);
    if start == s.len() {
        return None;
    }
    let mut j: usize = start;
    let mut tok: Vec<char> = Vec::new();
    proof {
        assert(tok@ =~= s@.subrange(start as int, start as int));
        assert(tok@ + spec_take_token(s@.skip(start as int)) =~= spec_take_token(
            s@.skip(start as int),
        ));
    }
    while j < s.len() && !is_space(s[j])
        invariant
            start <= j <= s@.len(),
            spec_skip_ws(s@) == s@.skip(start as int),
            start < s@.len(),
            tok@ == s@.subrange(start as int, j as int),
            spec_take_token(s@.skip(start as int)) == tok@ + spec_take_token(s@.skip(j as int)),
        decreases s@.len() - j,
    {
        proof {
            assert(s@.skip(j as int)[0] == s@[j as int]);
            assert(s@.skip(j as int).drop_first() =~= s@.skip(j + 1));
            assert(seq![s@[j as int]] + spec_take_token(s@.skip(j + 1)) == spec_take_token(
                s@.skip(j as int),
            ));
            assert(tok@ + spec_take_token(s@.skip(j as int)) =~= (tok@.push(s@[j as int]))
                + spec_take_token(s@.skip(j + 1)));
        }
        tok.push(s[j]);
        j = j + 1;
        proof {
            assert(tok@ =~= s@.subrange(start as int, j as int));
        }
    }
    proof {
        if j < s@.len() {
            assert(s@.skip(j as int)[0] == s@[j as int]);
            assert(spec_take_token(s@.skip(j as int)) =~= Seq::<char>::empty());
        } else {
            assert(s@.skip(j as int) =~= Seq::<char>::empty());
        }
        assert(tok@ + Seq::<char>::empty() =~= tok@);
    }
    Some(tok)
}

/// `s` without leading and trailing whitespace, scanning from both ends.
pub fn trim_chars(s: &Vec<char>) -> (r: Vec<char>)
    ensures
        r@ == spec_trim(s@),
{
    proof {
        assert(s@.skip(0) =~= s@);
    }
    let start = scan_ws(s, 0);
    let mut e: usize = s.len();
    proof {
        assert(s@.skip(start as int) =~= s@.subrange(start as int, s@.len() as int));
    }
    while e > start && is_space(s[e - 1])
        invariant
            start <= e <= s@.len(),
            spec_skip_ws(s@) == s@.skip(start as int),
            spec_trim_end(s@.skip(start as int)) == spec_trim_end(
                s@.subrange(start as int, e as int),
            ),
        decreases e,
    {
        proof {
            let u = s@.subrange(start as int, e as int);
            assert(u.last() == s@[e - 1]);
            assert(u.drop_last() =~= s@.subrange(start as int, e - 1));
        }
        e = e - 1;
    }
    proof {
        let u = s@.subrange(start as int, e as int);
        if e > start {
            assert(u.last() == s@[e - 1]);
            assert(spec_trim_end(u) == u);
        } else {
            assert(u =~= Seq::<char>::empty());
        }
    }
    subvec(s, start, e)
}

/// The parts of `s` between occurrences of `sep`, with `str::split`
/// semantics: the result always has at least one part, and separators at the
/// ends yield empty parts.
pub open spec fn spec_split_on(s: Seq<char>, sep: char) -> Seq<Seq<char>>
    decreases s.len(),
{
    if s.len() == 0 {
        seq![Seq::<char>::empty()]
    } else if s[0] == sep {
        seq![Seq::<char>::empty()] + spec_split_on(s.drop_first(), sep)
    } else {
        let rest = spec_split_on(s.drop_first(), sep);
        seq![seq![s[0]] + rest[0]] + rest.drop_first()
    }
}

/// Splitting yields at least one part.
pub proof fn lemma_split_on_len(s: Seq<char>, sep: char)
    ensures
        spec_split_on(s, sep).len() >= 1,
    decreases s.len(),
{
    if s.len() == 0 {
    } else {
        lemma_split_on_len(s.drop_first(), sep);
    }
}

/// The parts of `s` between occurrences of `sep`, scanning left to right.
pub fn split_on(s: &Vec<char>, sep: char) -> (r: Vec<Vec<char>>)
    ensures
        r.deep_view() == spec_split_on(s@, sep),
{
    let mut out: Vec<Vec<char>> = Vec::new();
    let mut cur: Vec<char> = Vec::new();
    let mut i: usize = 0;
    proof {
        lemma_split_on_len(s@.skip(0), sep);
        assert(s@.skip(0) =~= s@);
        let sp = spec_split_on(s@, sep);
        assert(out.deep_view() + (seq![cur@ + sp[0]] + sp.drop_first()) =~~= sp);
    }
    while i < s.len()
        invariant
            i <= s@.len(),
            spec_split_on(s@, sep) == out.deep_view() + (seq![
                cur@ + spec_split_on(s@.skip(i as int), sep)[0],
            ] + spec_split_on(s@.skip(i as int), sep).drop_first()),
        decreases s@.len() - i,
    {
        proof {
            assert(s@.skip(i as int)[0] == s@[i as int]);
            assert(s@.skip(i as int).drop_first() =~= s@.skip(i + 1));
            lemma_split_on_len(s@.skip(i + 1), sep);
        }
        if s[i] == sep {
            let ghost old_out = out.deep_view();
            let ghost old_cur = cur@;
            out.push(cur);
            cur = Vec::new();
            proof {
                let spn = spec_split_on(s@.skip(i + 1), sep);
                assert(spec_split_on(s@.skip(i as int), sep) == seq![Seq::<char>::empty()] + spn);
                assert(out.deep_view() =~~= old_out.push(old_cur));
                assert(old_cur + (seq![Seq::<char>::empty()] + spn)[0] =~= old_cur);
                assert(out.deep_view() + (seq![cur@ + spn[0]] + spn.drop_first()) =~~= old_out + (
                seq![old_cur + spec_split_on(s@.skip(i as int), sep)[0]] + spec_split_on(
                    s@.skip(i as int),
                    sep,
                ).drop_first()));
            }
        } else {
            let ghost old_cur = cur@;
            cur.push(s[i]);
            proof {
                let spi = spec_split_on(s@.skip(i as int), sep);
                let spn = spec_split_on(s@.skip(i + 1), sep);
                assert(spi == seq![seq![s@[i as int]] + spn[0]] + spn.drop_first());
                assert(old_cur + spi[0] =~= cur@ + spn[0]);
                assert(spi.drop_first() =~= spn.drop_first());
                assert(out.deep_view() + (seq![cur@ + spn[0]] + spn.drop_first()) =~~= out.deep_view()
                    + (seq![old_cur + spi[0]] + spi.drop_first()));
            }
        }
        i = i + 1;
    }
    proof {
        assert(s@.skip(i as int) =~= Seq::<char>::empty());
        let spe = spec_split_on(Seq::<char>::empty(), sep);
        assert(spe == seq![Seq::<char>::empty()]);
        assert(cur@ + spe[0] =~= cur@);
        assert(spe.drop_first() =~= Seq::<Seq<char>>::empty());
    }
    let ghost old_out = out.deep_view();
    let ghost old_cur = cur@;
    out.push(cur);
    proof {
        assert(out.deep_view() =~~= old_out.push(old_cur));
        assert(old_out + (seq![old_cur] + Seq::<Seq<char>>::empty()) =~~= old_out.push(old_cur));
    }
    out
}

/// One trailing carriage return removed, as line splitting does for
/// `\r\n` endings.
pub open spec fn spec_strip_cr(s: Seq<char>) -> Seq<char> {
    if s.len() > 0 && s.last() == '\r' {
        s.drop_last()
    } else {
        s
    }
}

/// The lines of `s`, with `str::lines` semantics: split at `\n`, one
/// trailing `\r` removed from each terminated line, and a final line ending
/// optional.
pub open spec fn spec_lines(s: Seq<char>) -> Seq<Seq<char>> {
    let p = spec_split_on(s, '\n');
    let main = p.take(p.len() - 1).map_values(|t: Seq<char>| spec_strip_cr(t));
    if p.last().len() == 0 {
        main
    } else {
        main + seq![p.last()]
    }
}

/// One trailing carriage return removed.
fn strip_cr(s: Vec<char>) -> (r: Vec<char>)
    ensures
        r@ == spec_strip_cr(s@),
{
    let mut s = s;
    if s.len() > 0 && s[s.len() - 1] == '\r' {
        let ghost before = s@;
        s.pop();
        proof {
            assert(s@ =~= before.drop_last());
        }
    }
    s
}

/// The lines of `s`, scanning left to right.
pub fn lines_of(s: &Vec<char>) -> (r: Vec<Vec<char>>)
    ensures
        r.deep_view() == spec_lines(s@),
{
    let mut parts = split_on(s, '\n');
    proof {
        lemma_split_on_len(s@, '\n');
    }
    let tail = parts.pop().unwrap();
    let ghost p = spec_split_on(s@, '\n');
    proof {
        assert(parts.deep_view() =~~= p.take(p.len() - 1));
    }
    let mut out: Vec<Vec<char>> = Vec::new();
    let mut i: usize = 0;
    let n = parts.len();
    while i < n
        invariant
            n == parts@.len(),
            i <= n,
            parts.deep_view() == p.take(p.len() - 1),
            p.len() >= 1,
            out.deep_view() == p.take(p.len() - 1).map_values(
                |t: Seq<char>| spec_strip_cr(t),
            ).take(i as int),
        decreases n - i,
    {
        let ghost old_out = out.deep_view();
        let part = parts[i].clone();
        proof {
            assert(part@ == parts.deep_view()[i as int]);
        }
        let stripped = strip_cr(part);
        out.push(stripped);
        i = i + 1;
        proof {
            assert(out.deep_view() =~~= old_out.push(spec_strip_cr(p.take(p.len() - 1)[i - 1])));
            assert(out.deep_view() =~~= p.take(p.len() - 1).map_values(
                |t: Seq<char>| spec_strip_cr(t),
            ).take(i as int));
        }
    }
    proof {
        let mv = p.take(p.len() - 1).map_values(|t: Seq<char>| spec_strip_cr(t));
        assert(out.deep_view() =~~= mv);
    }
    if tail.len() > 0 {
        let ghost old_out = out.deep_view();
        out.push(tail);
        proof {
            assert(tail@ == p.last());
            assert(out.deep_view() =~~= old_out.push(p.last()));
            assert(out.deep_view() =~~= spec_lines(s@));
        }
    } else {
        proof {
            assert(tail@ == p.last());
        }
    }
    out
}

/// An ASCII decimal digit.
pub open spec fn is_digit_char(c: char) -> bool {
    0x30 <= c as u32 <= 0x39
}

/// The value of an ASCII decimal digit.
pub open spec fn digit_val(c: char) -> nat {
    (c as u32 - 0x30) as nat
}

/// Every character of `s` is an ASCII decimal digit.
pub open spec fn all_digit_chars(s: Seq<char>) -> bool {
    forall|i: int| 0 <= i < s.len() ==> is_digit_char(s[i])
}

/// The number denoted by a sequence of decimal digits.
pub open spec fn spec_dec_value(s: Seq<char>) -> nat
    decreases s.len(),
{
    if s.len() == 0 {
        0
    } else {
        spec_dec_value(s.drop_last()) * 10 + digit_val(s.last())
    }
}

/// A longer digit string denotes at least as large a number.
pub proof fn lemma_dec_value_mono(s: Seq<char>, j: int)
    requires
        0 <= j <= s.len(),
    ensures
        spec_dec_value(s.take(j)) <= spec_dec_value(s),
    decreases s.len() - j,
{
    if j == s.len() {
        assert(s.take(j) =~= s);
    } else {
        lemma_dec_value_mono(s, j + 1);
        assert(s.take(j + 1).drop_last() =~= s.take(j));
        assert(spec_dec_value(s.take(j)) <= spec_dec_value(s.take(j + 1)));
    }
}

/// The digits of a decimal numeral: everything after an optional leading
/// plus sign.
pub open spec fn spec_numeral_body(s: Seq<char>) -> Seq<char> {
    if s.len() > 0 && s[0] == '+' {
        s.drop_first()
    } else {
        s
    }
}

/// What `str::parse::<u32>` accepts: an optional leading plus sign, then one
/// or more decimal digits denoting a value that fits in a `u32`.
pub open spec fn spec_parse_u32(s: Seq<char>) -> Option<u32> {
    if spec_numeral_body(s).len() > 0 && all_digit_chars(spec_numeral_body(s))
        && spec_dec_value(spec_numeral_body(s)) <= u32::MAX {
        Some(spec_dec_value(spec_numeral_body(s)) as u32)
    } else {
        None
    }
}

/// Decimal parsing of a `u32`, scanning left to right with an overflow
/// check.
pub fn parse_u32_chars(s: &Vec<char>) -> (r: Option<u32>)
    ensures
        r == spec_parse_u32(s@),
{
    let start: usize = if s.len() > 0 && s[0] == '+' {
        1
    } else {
        0
    };
    let ghost body = spec_numeral_body(s@);
    proof {
        assert(body =~= s@.skip(start as int));
    }
    if start == s.len() {
        return None;
    }
    let mut acc: u32 = 0;
    let mut i: usize = start;
    while i < s.len()
        invariant
            start <= i <= s@.len(),
            start < s@.len(),
            body == spec_numeral_body(s@),
            body == s@.skip(start as int),
            all_digit_chars(body.take(i - start)),
            acc == spec_dec_value(body.take(i - start)),
        decreases s@.len() - i,
    {
        let c = s[i];
        let cu = c as u32;
        if cu < 0x30 || cu > 0x39 {
            proof {
                assert(body[i - start] == s@[i as int]);
                assert(!is_digit_char(body[i - start]));
                assert(!all_digit_chars(body));
            }
            return None;
        }
        let d: u32 = cu - 0x30;
        if acc > (u32::MAX - d) / 10 {
            proof {
                let t = body.take(i + 1 - start);
                assert(t.drop_last() =~= body.take(i - start));
                assert(t.last() == s@[i as int]);
                assert(acc * 10 + d > u32::MAX) by (nonlinear_arith)
                    requires
                        acc > (u32::MAX - d) / 10,
                        d <= 9,
                ;
                assert(spec_dec_value(t) > u32::MAX);
                if all_digit_chars(body) && spec_dec_value(body) <= u32::MAX {
                    lemma_dec_value_mono(body, i + 1 - start);
                }
            }
            return None;
        }
        proof {
            let t = body.take(i + 1 - start);
            assert(t.drop_last() =~= body.take(i - start));
            assert(t.last() == s@[i as int]);
            assert(acc * 10 + d <= u32::MAX) by (nonlinear_arith)
                requires
                    acc <= (u32::MAX - d) / 10,
                    d <= 9,
            ;
            assert(forall|k: int|
                0 <= k < t.len() ==> #[trigger] t[k] == body.take(i - start).push(
                    s@[i as int],
                )[k]);
        }
        acc = acc * 10 + d;
        i = i + 1;
    }
    proof {
        assert(body.take(i - start) =~= body);
    }
    Some(acc)
}

/// The lowercase hexadecimal digit for a value below sixteen.
pub open spec fn hex_digit_char(d: int) -> char {
    if d == 0 {
        '0'
    } else if d == 1 {
        '1'
    } else if d == 2 {
        '2'
    } else if d == 3 {
        '3'
    } else if d == 4 {
        '4'
    } else if d == 5 {
        '5'
    } else if d == 6 {
        '6'
    } else if d == 7 {
        '7'
    } else if d == 8 {
        '8'
    } else if d == 9 {
        '9'
    } else if d == 10 {
        'a'
    } else if d == 11 {
        'b'
    } else if d == 12 {
        'c'
    } else if d == 13 {
        'd'
    } else if d == 14 {
        'e'
    } else {
        'f'
    }
}

/// The hexadecimal digits of a positive number, most significant first.
pub open spec fn spec_hex_rec(h: int) -> Seq<char>
    decreases h,
{
    if h <= 0 {
        Seq::empty()
    } else {
        spec_hex_rec(h / 16) + seq![hex_digit_char(h % 16)]
    }
}

/// What formatting with `{:x}` yields: lowercase hexadecimal digits, no
/// leading zeros, and a single `0` for zero itself.
pub open spec fn spec_hex(h: u64) -> Seq<char> {
    if h == 0 {
        seq!['0']
    } else {
        spec_hex_rec(h as int)
    }
}

/// The lowercase hexadecimal digit of `d`.
fn hex_digit(d: u64) -> (c: char)
    requires
        d < 16,
    ensures
        c == hex_digit_char(d as int),
{
    if d == 0 {
        '0'
    } else if d == 1 {
        '1'
    } else if d == 2 {
        '2'
    } else if d == 3 {
        '3'
    } else if d == 4 {
        '4'
    } else if d == 5 {
        '5'
    } else if d == 6 {
        '6'
    } else if d == 7 {
        '7'
    } else if d == 8 {
        '8'
    } else if d == 9 {
        '9'
    } else if d == 10 {
        'a'
    } else if d == 11 {
        'b'
    } else if d == 12 {
        'c'
    } else if d == 13 {
        'd'
    } else if d == 14 {
        'e'
    } else {
        'f'
    }
}

/// The hexadecimal digits of `h`, most significant first.
fn hex_rec(h: u64) -> (r: Vec<char>)
    ensures
        r@ == spec_hex_rec(h as int),
    decreases h,
{
    if h == 0 {
        let r: Vec<char> = Vec::new();
        proof {
            assert(r@ =~= spec_hex_rec(0));
        }
        r
    } else {
        let mut r = hex_rec(h / 16);
        r.push(hex_digit(h % 16));
        proof {
            assert(r@ =~= spec_hex_rec(h as int / 16) + seq![hex_digit_char(h as int % 16)]);
        }
        r
    }
}

/// The `{:x}` rendering of `h`.
pub fn hex_chars(h: u64) -> (r: Vec<char>)
    ensures
        r@ == spec_hex(h),
{
    if h == 0 {
        let mut r: Vec<char> = Vec::new();
        r.push('0');
        proof {
            assert(r@ =~= seq!['0']);
        }
        r
    } else {
        hex_rec(h)
    }
}

/// The decimal digits of a positive number, most significant first. The
/// digits below ten share the hexadecimal digit table.
pub open spec fn spec_dec_rec(n: int) -> Seq<char>
    decreases n,
{
    if n <= 0 {
        Seq::empty()
    } else {
        spec_dec_rec(n / 10) + seq![hex_digit_char(n % 10)]
    }
}

/// What formatting a `u32` with `{}` yields: decimal digits, no leading
/// zeros, and a single `0` for zero itself.
pub open spec fn spec_dec(n: u32) -> Seq<char> {
    if n == 0 {
        seq!['0']
    } else {
        spec_dec_rec(n as int)
    }
}

/// The decimal digits of `n`, most significant first.
fn dec_rec(n: u32) -> (r: Vec<char>)
    ensures
        r@ == spec_dec_rec(n as int),
    decreases n,
{
    if n == 0 {
        let r: Vec<char> = Vec::new();
        proof {
            assert(r@ =~= spec_dec_rec(0));
        }
        r
    } else {
        let mut r = dec_rec(n / 10);
        r.push(hex_digit((n % 10) as u64));
        proof {
            assert(r@ =~= spec_dec_rec(n as int / 10) + seq![hex_digit_char(n as int % 10)]);
        }
        r
    }
}

/// The `{}` rendering of `n`.
pub fn dec_chars(n: u32) -> (r: Vec<char>)
    ensures
        r@ == spec_dec(n),
{
    if n == 0 {
        let mut r: Vec<char> = Vec::new();
        r.push('0');
        proof {
            assert(r@ =~= seq!['0']);
        }
        r
    } else {
        dec_rec(n)
    }
}

/// `s` with every double-quote character doubled: the string-literal
/// escaping convention of VBScript.
pub open spec fn spec_escape_quotes(s: Seq<char>) -> Seq<char>
    decreases s.len(),
{
    if s.len() == 0 {
        s
    } else {
        spec_escape_quotes(s.drop_last()) + (if s.last() == '"' {
            seq!['"', '"']
        } else {
            seq![s.last()]
        })
    }
}

/// Doubles every double-quote character, scanning left to right.
pub fn escape_quotes(s: &Vec<char>) -> (r: Vec<char>)
    ensures
        r@ == spec_escape_quotes(s@),
{
    let mut r: Vec<char> = Vec::new();
    let mut i: usize = 0;
    proof {
        assert(r@ =~= spec_escape_quotes(s@.take(0)));
    }
    while i < s.len()
        invariant
            i <= s@.len(),
            r@ == spec_escape_quotes(s@.take(i as int)),
        decreases s@.len() - i,
    {
        proof {
            assert(s@.take(i + 1).drop_last() =~= s@.take(i as int));
            assert(s@.take(i + 1).last() == s@[i as int]);
        }
        if s[i] == '"' {
            r.push('"');
            r.push('"');
        } else {
            r.push(s[i]);
        }
        i = i + 1;
        proof {
            assert(r@ =~= spec_escape_quotes(s@.take(i as int)));
        }
    }
    proof {
        assert(s@.take(i as int) =~= s@);
    }
    r
}

/// Character-by-character equality.
pub fn eq_chars(a: &Vec<char>, b: &Vec<char>) -> (r: bool)
    ensures
        r == (a@ == b@),
{
    if a.len() != b.len() {
        return false;
    }
    let mut i: usize = 0;
    while i < a.len()
        invariant
            a@.len() == b@.len(),
            i <= a@.len(),
            forall|k: int| 0 <= k < i ==> a@[k] == b@[k],
        decreases a@.len() - i,
    {
        if a[i] != b[i] {
            return false;
        }
        i = i + 1;
    }
    proof {
        assert(a@ =~= b@);
    }
    true
}

/// Equality of two string slices, character by character.
pub fn eq_str(a: &str, b: &str) -> (r: bool)
    ensures
        r == (a@ == b@),
{
    let av = to_chars(a);
    let bv = to_chars(b);
    eq_chars(&av, &bv)
}

} // verus!
