//! Character-level helpers: conversion between `str`/`String` and `Vec<char>`,
//! decimal rendering and parsing of integers.
use vstd::prelude::*;

verus! {

/// Appends one character to a `String` (`String::push`).
#[verifier::external_body]
pub(crate) fn push_char(s: &mut String, c: char)
    ensures
        final(s)@ == old(s)@.push(c),
{
    s.push(c);
}

/// The characters of `s`, in order.
pub fn chars_of(s: &str) -> (v: Vec<char>)
    ensures
        v@ == s@,
{
    let mut v: Vec<char> = Vec::new();
    for c in it: s.chars()
        invariant
            v@ == it.seq().take(it.index() as int),
            it.seq() == s@,
    {
        v.push(c);
    }
    v
}

/// Appends the characters of `s` to `out`.
pub fn append_chars(out: &mut Vec<char>, s: &str)
    ensures
        final(out)@ == old(out)@ + s@,
{
    let mut v = chars_of(s);
    out.append(&mut v);
}

/// A `String` holding the characters of `v`.
pub fn string_of(v: &Vec<char>) -> (s: String)
    ensures
        s@ == v@,
{
    let mut s = String::new();
    for i in 0..v.len()
        invariant
            s@ == v@.take(i as int),
    {
        push_char(&mut s, v[i]);
        assert(v@.take(i + 1) == v@.take(i as int).push(v@[i as int]));
    }
    assert(v@.take(v.len() as int) == v@);
    s
}


/// The ASCII digit character for `d` (0 to 9).
pub open spec fn digit_char(d: nat) -> char {
    if d == 0 { '0' } else if d == 1 { '1' } else if d == 2 { '2' } else if d == 3 { '3' }
    else if d == 4 { '4' } else if d == 5 { '5' } else if d == 6 { '6' } else if d == 7 { '7' }
    else if d == 8 { '8' } else { '9' }
}

/// The decimal rendering of `n`, without sign or leading zeros (`"0"` for zero),
/// as `format!("{}", n)` writes an unsigned integer.
pub open spec fn decimal(n: nat) -> Seq<char>
    decreases n,
{
    if n < 10 {
        seq![digit_char(n)]
    } else {
        decimal(n / 10).push(digit_char(n % 10))
    }
}

fn digit_of(d: u64) -> (c: char)
    requires
        d < 10,
    ensures
        c == digit_char(d as nat),
{
    if d == 0 { '0' } else if d == 1 { '1' } else if d == 2 { '2' } else if d == 3 { '3' }
    else if d == 4 { '4' } else if d == 5 { '5' } else if d == 6 { '6' } else if d == 7 { '7' }
    else if d == 8 { '8' } else { '9' }
}

/// Appends the decimal rendering of `n` to `out`.
pub fn push_decimal(out: &mut Vec<char>, n: u64)
    ensures
        final(out)@ == old(out)@ + decimal(n as nat),
    decreases n,
{
    if n >= 10 {
        push_decimal(out, n / 10);
    }
    out.push(digit_of(n % 10));
}

/// Whether `c` is an ASCII decimal digit.
pub open spec fn is_digit(c: char) -> bool {
    '0' <= c <= '9'
}

/// The value of an ASCII digit character.
pub open spec fn digit_value(c: char) -> nat {
    (c as int - '0' as int) as nat
}

/// Whether every character of `s` is an ASCII digit.
pub open spec fn all_digits(s: Seq<char>) -> bool {
    forall|i: int| 0 <= i < s.len() ==> is_digit(#[trigger] s[i])
}

/// The number written by the digits `s` in base ten (leading zeros allowed).
pub open spec fn digits_value(s: Seq<char>) -> nat
    decreases s.len(),
{
    if s.len() == 0 {
        0
    } else {
        digits_value(s.drop_last()) * 10 + digit_value(s.last())
    }
}

/// What `str::parse::<u32>` gives: an optional `+`, then one or more ASCII digits
/// whose value fits in a `u32`; anything else is an error (`None`).
pub open spec fn parse_u32_spec(s: Seq<char>) -> Option<u32> {
    let d = if s.len() > 0 && s[0] == '+' { s.drop_first() } else { s };
    if d.len() == 0 || !all_digits(d) || digits_value(d) > u32::MAX {
        None
    } else {
        Some(digits_value(d) as u32)
    }
}

/// What `str::parse::<i64>` gives: an optional `+` or `-`, then one or more ASCII
/// digits whose signed value fits in an `i64`; anything else is an error (`None`).
pub open spec fn parse_i64_spec(s: Seq<char>) -> Option<i64> {
    let neg = s.len() > 0 && s[0] == '-';
    let d = if s.len() > 0 && (s[0] == '+' || s[0] == '-') { s.drop_first() } else { s };
    if d.len() == 0 || !all_digits(d) {
        None
    } else if neg {
        if digits_value(d) > 0x8000_0000_0000_0000 { None } else { Some((0 - digits_value(d)) as i64) }
    } else {
        if digits_value(d) > i64::MAX { None } else { Some(digits_value(d) as i64) }
    }
}

/// Reads the digits `s[start..]` as a base-ten number no greater than `limit`:
/// `None` when a character is not a digit, when there are no digits, or when the
/// value exceeds `limit`.
fn parse_digits(s: &Vec<char>, start: usize, limit: u64) -> (r: Option<u64>)
    requires
        start <= s.len(),
    ensures
        ({
            let d = s@.skip(start as int);
            match r {
                None => d.len() == 0 || !all_digits(d) || digits_value(d) > limit,
                Some(v) => d.len() > 0 && all_digits(d) && digits_value(d) <= limit && v
                    == digits_value(d),
            }
        }),
{
    if start == s.len() {
        return None;
    }
    let ghost d = s@.skip(start as int);
    let mut acc: u64 = 0;
    let mut over = false;
    let mut i = start;
    while i < s.len()
        invariant
            start <= i <= s.len(),
            d == s@.skip(start as int),
            all_digits(s@.subrange(start as int, i as int)),
            !over ==> acc == digits_value(s@.subrange(start as int, i as int)) && acc <= limit,
            over ==> digits_value(s@.subrange(start as int, i as int)) > limit,
        decreases s.len() - i,
    {
        let c = s[i];
        let ghost pre = s@.subrange(start as int, i as int);
        assert(s@.subrange(start as int, i + 1) == pre.push(c));
        assert(s@.subrange(start as int, i + 1).drop_last() == pre);
        if !('0' <= c && c <= '9') {
            assert(d[i - start] == c);
            return None;
        }
        let dv = (c as u32 - '0' as u32) as u64;
        if !over {
            let next: u128 = acc as u128 * 10 + dv as u128;
            if next > limit as u128 {
                over = true;
            } else {
                acc = next as u64;
            }
        }
        i = i + 1;
    }
    assert(s@.subrange(start as int, s.len() as int) == d);
    if over {
        None
    } else {
        Some(acc)
    }
}

/// `s.parse::<u32>()`, with `None` for every error.
pub fn parse_u32(s: &Vec<char>) -> (r: Option<u32>)
    ensures
        r == parse_u32_spec(s@),
{
    let start: usize = if s.len() > 0 && s[0] == '+' { 1 } else { 0 };
    assert(start == 1 ==> s@.skip(1) == s@.drop_first());
    assert(s@.skip(0) == s@);
    match parse_digits(s, start, 0xffff_ffff) {
        Some(v) => Some(v as u32),
        None => None,
    }
}

/// `s.parse::<i64>()`, with `None` for every error.
pub fn parse_i64(s: &Vec<char>) -> (r: Option<i64>)
    ensures
        r == parse_i64_spec(s@),
{
    let neg = s.len() > 0 && s[0] == '-';
    let start: usize = if s.len() > 0 && (s[0] == '+' || s[0] == '-') { 1 } else { 0 };
    assert(start == 1 ==> s@.skip(1) == s@.drop_first());
    assert(s@.skip(0) == s@);
    if neg {
        match parse_digits(s, start, 0x8000_0000_0000_0000) {
            Some(v) => {
                if v == 0x8000_0000_0000_0000 {
                    Some(i64::MIN)
                } else {
                    Some(0 - (v as i64))
                }
            },
            None => None,
        }
    } else {
        match parse_digits(s, start, 0x7fff_ffff_ffff_ffff) {
            Some(v) => Some(v as i64),
            None => None,
        }
    }
}


/// The pieces of `s` between occurrences of `sep` (as `str::split` gives them):
/// always at least one piece.
pub open spec fn split_on(s: Seq<char>, sep: char) -> Seq<Seq<char>>
    decreases s.len(),
{
    if s.len() == 0 {
        seq![Seq::<char>::empty()]
    } else {
        let r = split_on(s.drop_last(), sep);
        if s.last() == sep {
            r.push(Seq::<char>::empty())
        } else {
            r.update(r.len() - 1, r.last().push(s.last()))
        }
    }
}

/// `line` without one trailing carriage return, if it has one.
pub open spec fn strip_cr(line: Seq<char>) -> Seq<char> {
    if line.len() > 0 && line.last() == '\r' { line.drop_last() } else { line }
}

/// The lines of `s` as `str::lines` yields them: split at `\n`, with a `\r` just
/// before the `\n` removed, and no empty last line after a final `\n`. A last line
/// that has no `\n` after it keeps a trailing `\r`.
pub open spec fn lines_spec(s: Seq<char>) -> Seq<Seq<char>> {
    let raw = split_on(s, '\n');
    if s.len() == 0 {
        Seq::empty()
    } else if s.last() == '\n' {
        raw.drop_last().map_values(|l: Seq<char>| strip_cr(l))
    } else {
        raw.drop_last().map_values(|l: Seq<char>| strip_cr(l)).push(raw.last())
    }
}

proof fn lemma_split_on_nonempty(s: Seq<char>, sep: char)
    ensures
        split_on(s, sep).len() >= 1,
    decreases s.len(),
{
    if s.len() > 0 {
        lemma_split_on_nonempty(s.drop_last(), sep);
    }
}

fn strip_cr_exec(line: Vec<char>) -> (r: Vec<char>)
    ensures
        r@ == strip_cr(line@),
{
    let mut line = line;
    if line.len() > 0 && line[line.len() - 1] == '\r' {
        line.pop();
    }
    line
}

/// The lines of `s` (`str::lines`).
pub fn lines_of(s: &Vec<char>) -> (r: Vec<Vec<char>>)
    ensures
        r@.map_values(|l: Vec<char>| l@) == lines_spec(s@),
{
    let mut out: Vec<Vec<char>> = Vec::new();
    let mut cur: Vec<char> = Vec::new();
    let mut i: usize = 0;
    while i < s.len()
        invariant
            0 <= i <= s.len(),
            split_on(s@.take(i as int), '\n').len() >= 1,
            out@.map_values(|l: Vec<char>| l@) == split_on(s@.take(i as int), '\n').drop_last().map_values(
                |l: Seq<char>| strip_cr(l),
            ),
            cur@ == split_on(s@.take(i as int), '\n').last(),
        decreases s.len() - i,
    {
        let ghost p = s@.take(i as int);
        let ghost q = s@.take(i + 1);
        assert(q.drop_last() == p);
        assert(q.last() == s@[i as int]);
        proof {
            lemma_split_on_nonempty(p, '\n');
            lemma_split_on_nonempty(q, '\n');
        }
        let c = s[i];
        if c == '\n' {
            let done = strip_cr_exec(cur);
            out.push(done);
            cur = Vec::new();
            assert(split_on(q, '\n') == split_on(p, '\n').push(Seq::<char>::empty()));
            assert(split_on(q, '\n').drop_last() == split_on(p, '\n'));
            assert(split_on(p, '\n') == split_on(p, '\n').drop_last().push(split_on(p, '\n').last()));
            let ghost a = split_on(p, '\n').drop_last();
            assert(out@.map_values(|l: Vec<char>| l@) =~= a.map_values(|l: Seq<char>| strip_cr(l)).push(
                strip_cr(split_on(p, '\n').last())));
            assert(split_on(q, '\n').drop_last().map_values(|l: Seq<char>| strip_cr(l)) =~= a.map_values(
                |l: Seq<char>| strip_cr(l)).push(strip_cr(split_on(p, '\n').last())));
        } else {
            cur.push(c);
            assert(split_on(q, '\n').drop_last() == split_on(p, '\n').drop_last());
        }
        i = i + 1;
    }
    assert(s@.take(s.len() as int) == s@);
    proof {
        lemma_split_on_nonempty(s@, '\n');
        if s@.len() > 0 && s@.last() != '\n' {
            assert(s@.drop_last() == s@.take(s@.len() - 1));
            lemma_split_on_nonempty(s@.drop_last(), '\n');
            assert(split_on(s@, '\n').last() == split_on(s@.drop_last(), '\n').last().push(s@.last()));
            assert(cur@.len() > 0);
        }
        if s@.len() > 0 && s@.last() == '\n' {
            assert(cur@.len() == 0);
        }
    }
    if cur.len() > 0 {
        out.push(cur);
    }
    out
}


/// The pieces of `s` as `str::splitn(n, sep)` yields them for `n >= 1`: reading from
/// the left, each `sep` ends a piece while fewer than `n` pieces have been started;
/// after that the rest of `s`, separators included, is the last piece.
pub open spec fn splitn_spec(s: Seq<char>, n: nat, sep: char) -> Seq<Seq<char>>
    decreases s.len(),
{
    if s.len() == 0 {
        seq![Seq::<char>::empty()]
    } else {
        let r = splitn_spec(s.drop_last(), n, sep);
        if s.last() == sep && r.len() < n {
            r.push(Seq::<char>::empty())
        } else {
            r.update(r.len() - 1, r.last().push(s.last()))
        }
    }
}

proof fn lemma_splitn_len(s: Seq<char>, n: nat, sep: char)
    requires
        n >= 1,
    ensures
        1 <= splitn_spec(s, n, sep).len() <= n,
    decreases s.len(),
{
    if s.len() > 0 {
        lemma_splitn_len(s.drop_last(), n, sep);
    }
}

/// The pieces of `s` split at the first `n - 1` occurrences of `sep`
/// (`str::splitn`).
pub fn splitn_of(s: &Vec<char>, n: usize, sep: char) -> (r: Vec<Vec<char>>)
    requires
        n >= 1,
    ensures
        r@.map_values(|l: Vec<char>| l@) == splitn_spec(s@, n as nat, sep),
{
    let mut out: Vec<Vec<char>> = Vec::new();
    let mut cur: Vec<char> = Vec::new();
    let mut i: usize = 0;
    proof {
        assert(s@.take(0) =~= Seq::<char>::empty());
    }
    while i < s.len()
        invariant
            n >= 1,
            0 <= i <= s.len(),
            1 <= splitn_spec(s@.take(i as int), n as nat, sep).len() <= n,
            out@.map_values(|l: Vec<char>| l@) == splitn_spec(s@.take(i as int), n as nat, sep).drop_last(),
            cur@ == splitn_spec(s@.take(i as int), n as nat, sep).last(),
        decreases s.len() - i,
    {
        let ghost p = s@.take(i as int);
        let ghost q = s@.take(i + 1);
        assert(q.drop_last() == p);
        assert(q.last() == s@[i as int]);
        proof {
            lemma_splitn_len(q, n as nat, sep);
        }
        let c = s[i];
        if c == sep && out.len() < n - 1 {
            out.push(cur);
            cur = Vec::new();
            let ghost r = splitn_spec(p, n as nat, sep);
            assert(r == r.drop_last().push(r.last()));
            assert(out@.map_values(|l: Vec<char>| l@) =~= r);
            assert(splitn_spec(q, n as nat, sep).drop_last() =~= r);
        } else {
            cur.push(c);
            assert(splitn_spec(q, n as nat, sep).drop_last() =~= splitn_spec(p, n as nat, sep).drop_last());
        }
        i = i + 1;
    }
    assert(s@.take(s.len() as int) == s@);
    out.push(cur);
    let ghost r = splitn_spec(s@, n as nat, sep);
    assert(r == r.drop_last().push(r.last()));
    assert(out@.map_values(|l: Vec<char>| l@) =~= r);
    out
}

/// The text made of `ls`, each line followed by `\n`.
pub open spec fn join_lines(ls: Seq<Seq<char>>) -> Seq<char>
    decreases ls.len(),
{
    if ls.len() == 0 {
        Seq::empty()
    } else {
        join_lines(ls.drop_last()) + ls.last() + seq!['\n']
    }
}

proof fn lemma_split_on_append_plain(x: Seq<char>, y: Seq<char>, sep: char)
    requires
        !y.contains(sep),
    ensures
        split_on(x + y, sep) == split_on(x, sep).update(
            split_on(x, sep).len() - 1,
            split_on(x, sep).last() + y,
        ),
    decreases y.len(),
{
    lemma_split_on_nonempty(x, sep);
    if y.len() == 0 {
        assert(x + y =~= x);
        assert(split_on(x, sep).last() + y =~= split_on(x, sep).last());
        assert(split_on(x, sep).update(split_on(x, sep).len() - 1, split_on(x, sep).last())
            =~= split_on(x, sep));
    } else {
        let y0 = y.drop_last();
        assert(!y0.contains(sep)) by {
            assert forall|k: int| 0 <= k < y0.len() implies y0[k] != sep by {
                assert(y0[k] == y[k]);
            }
        }
        assert(y.last() != sep) by {
            assert(y[y.len() - 1] == y.last());
        }
        lemma_split_on_append_plain(x, y0, sep);
        assert((x + y).drop_last() =~= x + y0);
        assert((x + y).last() == y.last());
        lemma_split_on_nonempty(x + y0, sep);
        assert(split_on(x, sep).last() + y =~= (split_on(x, sep).last() + y0).push(y.last()));
        assert(split_on(x + y, sep) =~= split_on(x, sep).update(
            split_on(x, sep).len() - 1,
            split_on(x, sep).last() + y,
        ));
    }
}

proof fn lemma_split_on_join(ls: Seq<Seq<char>>)
    requires
        forall|k: int| 0 <= k < ls.len() ==> !(#[trigger] ls[k]).contains('\n'),
    ensures
        split_on(join_lines(ls), '\n') == ls.push(Seq::<char>::empty()),
    decreases ls.len(),
{
    if ls.len() == 0 {
        assert(split_on(Seq::<char>::empty(), '\n') =~= seq![Seq::<char>::empty()]);
    } else {
        let ls0 = ls.drop_last();
        assert forall|k: int| 0 <= k < ls0.len() implies !(#[trigger] ls0[k]).contains('\n') by {
            assert(ls0[k] == ls[k]);
        }
        lemma_split_on_join(ls0);
        let j0 = join_lines(ls0);
        let l = ls.last();
        assert(!l.contains('\n')) by {
            assert(ls[ls.len() - 1] == l);
        }
        lemma_split_on_append_plain(j0, l, '\n');
        let j = join_lines(ls);
        assert(j.drop_last() =~= j0 + l);
        assert(j.last() == '\n');
        lemma_split_on_nonempty(j0 + l, '\n');
        assert(split_on(j0 + l, '\n') =~= ls);
        assert(split_on(j, '\n') =~= ls.push(Seq::<char>::empty()));
    }
}

/// Text made of lines, each followed by `\n`, splits back into those lines, as
/// long as no line holds a `\n` or ends with `\r`.
pub proof fn lines_of_joined_lines(ls: Seq<Seq<char>>)
    requires
        forall|k: int| 0 <= k < ls.len() ==> !(#[trigger] ls[k]).contains('\n'),
        forall|k: int| 0 <= k < ls.len() ==> (#[trigger] ls[k]).len() == 0 || ls[k].last() != '\r',
    ensures
        lines_spec(join_lines(ls)) == ls,
{
    lemma_split_on_join(ls);
    if ls.len() > 0 {
        let j = join_lines(ls);
        assert(j.len() > 0);
        assert(j.last() == '\n');
        assert(split_on(j, '\n').drop_last() =~= ls);
        assert(lines_spec(j) =~= ls);
    } else {
        assert(join_lines(ls) =~= Seq::<char>::empty());
    }
}

proof fn lemma_splitn_one(x: Seq<char>, sep: char)
    ensures
        splitn_spec(x, 1, sep) == seq![x],
    decreases x.len(),
{
    if x.len() == 0 {
        assert(x =~= Seq::<char>::empty());
    } else {
        lemma_splitn_one(x.drop_last(), sep);
        assert(x.drop_last().push(x.last()) =~= x);
        assert(splitn_spec(x, 1, sep) =~= seq![x]);
    }
}

proof fn lemma_splitn_plain(x: Seq<char>, n: nat, sep: char)
    requires
        n >= 1,
        !x.contains(sep),
    ensures
        splitn_spec(x, n, sep) == seq![x],
    decreases x.len(),
{
    if x.len() > 0 {
        let x0 = x.drop_last();
        assert(!x0.contains(sep)) by {
            assert forall|k: int| 0 <= k < x0.len() implies x0[k] != sep by {
                assert(x0[k] == x[k]);
            }
        }
        assert(x[x.len() - 1] == x.last());
        lemma_splitn_plain(x0, n, sep);
        assert(x0.push(x.last()) =~= x);
        assert(splitn_spec(x, n, sep) =~= seq![x]);
    } else {
        assert(x =~= Seq::<char>::empty());
    }
}

proof fn lemma_splitn_front(p: Seq<char>, r: Seq<char>, n: nat, sep: char)
    requires
        n >= 2,
        !p.contains(sep),
    ensures
        splitn_spec(p + seq![sep] + r, n, sep) == seq![p] + splitn_spec(r, (n - 1) as nat, sep),
    decreases r.len(),
{
    let q = p + seq![sep] + r;
    if r.len() == 0 {
        lemma_splitn_plain(p, n, sep);
        assert(q.drop_last() =~= p);
        assert(q.last() == sep);
        assert(splitn_spec(q, n, sep) =~= seq![p, Seq::<char>::empty()]);
        assert(splitn_spec(r, (n - 1) as nat, sep) =~= seq![Seq::<char>::empty()]);
    } else {
        let r0 = r.drop_last();
        lemma_splitn_front(p, r0, n, sep);
        assert(q.drop_last() =~= p + seq![sep] + r0);
        assert(q.last() == r.last());
        lemma_splitn_len(r0, (n - 1) as nat, sep);
        let s0 = splitn_spec(r0, (n - 1) as nat, sep);
        assert((seq![p] + s0).len() == s0.len() + 1);
        assert((seq![p] + s0).last() == s0.last());
        if r.last() == sep && s0.len() < n - 1 {
            assert(splitn_spec(q, n, sep) =~= seq![p] + s0.push(Seq::<char>::empty()));
        } else {
            assert(splitn_spec(q, n, sep) =~= seq![p] + s0.update(s0.len() - 1, s0.last().push(
                r.last(),
            )));
        }
    }
}

/// Splitting `f0 TAB f1 TAB f2 TAB f3 TAB f4` into at most five tab-separated
/// fields, when the first four hold no tab, gives back exactly those five fields
/// (the last one whole, tabs included).
pub proof fn splitn_five_fields(
    f0: Seq<char>,
    f1: Seq<char>,
    f2: Seq<char>,
    f3: Seq<char>,
    f4: Seq<char>,
)
    requires
        !f0.contains('\t'),
        !f1.contains('\t'),
        !f2.contains('\t'),
        !f3.contains('\t'),
    ensures
        splitn_spec(
            f0 + seq!['\t'] + f1 + seq!['\t'] + f2 + seq!['\t'] + f3 + seq!['\t'] + f4,
            5,
            '\t',
        ) == seq![f0, f1, f2, f3, f4],
{
    let t = seq!['\t'];
    let r3 = f3 + t + f4;
    let r2 = f2 + t + r3;
    let r1 = f1 + t + r2;
    assert(f0 + t + f1 + t + f2 + t + f3 + t + f4 =~= f0 + t + r1);
    lemma_splitn_front(f0, r1, 5, '\t');
    lemma_splitn_front(f1, r2, 4, '\t');
    lemma_splitn_front(f2, r3, 3, '\t');
    lemma_splitn_front(f3, f4, 2, '\t');
    lemma_splitn_one(f4, '\t');
    assert(seq![f0] + (seq![f1] + (seq![f2] + (seq![f3] + seq![f4]))) =~= seq![f0, f1, f2, f3, f4]);
}

} // verus!
