//! Removal of ANSI terminal escape sequences from captured pane text.
use vstd::prelude::*;

use crate::text::{chars_of, string_of};

verus! {

/// Where the scanner stands while reading a captured pane.
pub enum ScanState {
    /// Ordinary text: characters are kept.
    Text,
    /// Just after an `ESC`.
    Escape,
    /// Inside a control sequence (`ESC [`), up to its final byte.
    Csi,
    /// Inside an operating-system command (`ESC ]`), up to `BEL` or `ESC \`.
    Osc,
    /// Just after an `ESC` inside an operating-system command.
    OscEscape,
}

/// The escape character that starts every sequence.
pub open spec fn esc() -> char {
    '\x1b'
}

/// A final byte of a control sequence: `0x40` to `0x7E`.
pub open spec fn is_csi_final(c: char) -> bool {
    '\x40' <= c <= '\x7e'
}

/// The characters kept from `s[i..]` when scanning starts there in state `st`.
///
/// In text every character but `ESC` is kept. After `ESC`, a `[` opens a control
/// sequence that runs through its final byte (`0x40`..=`0x7E`); a `]` opens an
/// operating-system command that runs through `BEL` or `ESC \`; any other
/// character is dropped together with the `ESC`. A sequence cut off by the end of
/// the input is dropped.
pub open spec fn strip_run(s: Seq<char>, i: nat, st: ScanState) -> Seq<char>
    decreases s.len() - i,
{
    if i >= s.len() {
        Seq::empty()
    } else {
        let c = s[i as int];
        match st {
            ScanState::Text => if c == esc() {
                strip_run(s, i + 1, ScanState::Escape)
            } else {
                seq![c] + strip_run(s, i + 1, ScanState::Text)
            },
            ScanState::Escape => if c == '[' {
                strip_run(s, i + 1, ScanState::Csi)
            } else if c == ']' {
                strip_run(s, i + 1, ScanState::Osc)
            } else {
                strip_run(s, i + 1, ScanState::Text)
            },
            ScanState::Csi => if is_csi_final(c) {
                strip_run(s, i + 1, ScanState::Text)
            } else {
                strip_run(s, i + 1, ScanState::Csi)
            },
            ScanState::Osc => if c == '\x07' {
                strip_run(s, i + 1, ScanState::Text)
            } else if c == esc() {
                strip_run(s, i + 1, ScanState::OscEscape)
            } else {
                strip_run(s, i + 1, ScanState::Osc)
            },
            ScanState::OscEscape => if c == '\\' || c == '\x07' {
                strip_run(s, i + 1, ScanState::Text)
            } else if c == esc() {
                strip_run(s, i + 1, ScanState::OscEscape)
            } else {
                strip_run(s, i + 1, ScanState::Osc)
            },
        }
    }
}

/// `s` with its ANSI escape sequences removed.
pub open spec fn strip_ansi_spec(s: Seq<char>) -> Seq<char> {
    strip_run(s, 0, ScanState::Text)
}

proof fn lemma_osc_escape_as_osc(s: Seq<char>, i: nat)
    requires
        i >= s.len() || s[i as int] != '\\',
    ensures
        strip_run(s, i, ScanState::OscEscape) == strip_run(s, i, ScanState::Osc),
{
}

fn strip_chars(s: &Vec<char>) -> (out: Vec<char>)
    ensures
        out@ == strip_ansi_spec(s@),
{
    let ghost whole = strip_ansi_spec(s@);
    let len = s.len();
    let mut out: Vec<char> = Vec::new();
    let mut i: usize = 0;
    while i < len
        invariant
            len == s.len(),
            i <= len,
            out@ + strip_run(s@, i as nat, ScanState::Text) == whole,
        decreases len - i,
    {
        let c = s[i];
        let ghost i0 = i as nat;
        i = i + 1;
        if c == '\x1b' {
            assert(strip_run(s@, i0, ScanState::Text) == strip_run(s@, i0 + 1, ScanState::Escape));
            if i < len && s[i] == '[' {
                assert(strip_run(s@, i0 + 1, ScanState::Escape) == strip_run(s@, i0 + 2, ScanState::Csi));
                i = i + 1;
                let mut done = false;
                while i < len && !done
                    invariant
                        len == s.len(),
                        i0 < i <= len,
                        !done ==> out@ + strip_run(s@, i as nat, ScanState::Csi) == whole,
                        done ==> out@ + strip_run(s@, i as nat, ScanState::Text) == whole,
                    decreases len - i,
                {
                    let ch = s[i];
                    i = i + 1;
                    if '\x40' <= ch && ch <= '\x7e' {
                        done = true;
                    }
                }
            } else if i < len && s[i] == ']' {
                assert(strip_run(s@, i0 + 1, ScanState::Escape) == strip_run(s@, i0 + 2, ScanState::Osc));
                i = i + 1;
                let mut done = false;
                while i < len && !done
                    invariant
                        len == s.len(),
                        i0 < i <= len,
                        !done ==> out@ + strip_run(s@, i as nat, ScanState::Osc) == whole,
                        done ==> out@ + strip_run(s@, i as nat, ScanState::Text) == whole,
                    decreases len - i,
                {
                    let ch = s[i];
                    let ghost j0 = i as nat;
                    i = i + 1;
                    if ch == '\x07' {
                        done = true;
                    } else if ch == '\x1b' {
                        assert(strip_run(s@, j0, ScanState::Osc) == strip_run(s@, j0 + 1, ScanState::OscEscape));
                        if i < len && s[i] == '\\' {
                            assert(strip_run(s@, j0 + 1, ScanState::OscEscape) == strip_run(
                                s@,
                                j0 + 2,
                                ScanState::Text,
                            ));
                            i = i + 1;
                            done = true;
                        } else {
                            proof {
                                lemma_osc_escape_as_osc(s@, i as nat);
                            }
                        }
                    }
                }
            } else if i < len {
                assert(strip_run(s@, i0 + 1, ScanState::Escape) == strip_run(s@, i0 + 2, ScanState::Text));
                i = i + 1;
            }
        } else {
            let ghost before = out@;
            out.push(c);
            assert(out@ + strip_run(s@, i as nat, ScanState::Text) =~= before + (seq![c] + strip_run(
                s@,
                i as nat,
                ScanState::Text,
            )));
        }
    }
    assert(out@ + strip_run(s@, i as nat, ScanState::Text) == out@ + Seq::<char>::empty());
    assert(out@ + Seq::<char>::empty() =~= out@);
    out
}


/// `s` with its ANSI escape sequences (control sequences `ESC [ ... final`,
/// operating-system commands `ESC ] ... BEL` or `ESC ] ... ESC \`, and two-character
/// escapes) removed; all other characters are kept in order.
pub fn strip_ansi_codes(s: &str) -> (r: String)
    ensures
        r@ == strip_ansi_spec(s@),
{
    let v = chars_of(s);
    let out = strip_chars(&v);
    string_of(&out)
}

proof fn lemma_run_no_escape(s: Seq<char>, i: nat, st: ScanState)
    ensures
        !strip_run(s, i, st).contains(esc()),
    decreases s.len() - i,
{
    if i < s.len() {
        lemma_run_no_escape(s, i + 1, ScanState::Text);
        lemma_run_no_escape(s, i + 1, ScanState::Escape);
        lemma_run_no_escape(s, i + 1, ScanState::Csi);
        lemma_run_no_escape(s, i + 1, ScanState::Osc);
        lemma_run_no_escape(s, i + 1, ScanState::OscEscape);
        let c = s[i as int];
        if st == ScanState::Text && c != esc() {
            let rest = strip_run(s, i + 1, ScanState::Text);
            assert forall|k: int| 0 <= k < (seq![c] + rest).len() implies (seq![c] + rest)[k] != esc() by {
                if k > 0 {
                    assert((seq![c] + rest)[k] == rest[k - 1]);
                }
            }
        }
    }
}

proof fn lemma_run_len(s: Seq<char>, i: nat, st: ScanState)
    ensures
        strip_run(s, i, st).len() <= if i <= s.len() { s.len() - i } else { 0 },
    decreases s.len() - i,
{
    if i < s.len() {
        lemma_run_len(s, i + 1, ScanState::Text);
        lemma_run_len(s, i + 1, ScanState::Escape);
        lemma_run_len(s, i + 1, ScanState::Csi);
        lemma_run_len(s, i + 1, ScanState::Osc);
        lemma_run_len(s, i + 1, ScanState::OscEscape);
    }
}

proof fn lemma_run_plain(s: Seq<char>, i: nat)
    requires
        !s.contains(esc()),
        i <= s.len(),
    ensures
        strip_run(s, i, ScanState::Text) == s.skip(i as int),
    decreases s.len() - i,
{
    if i < s.len() {
        assert(s[i as int] != esc());
        lemma_run_plain(s, i + 1);
        assert(s.skip(i as int) =~= seq![s[i as int]] + s.skip((i + 1) as int));
    } else {
        assert(s.skip(i as int) =~= Seq::<char>::empty());
    }
}

/// No `ESC` character is left in text once its escape sequences are stripped.
pub proof fn strip_leaves_no_escape(s: Seq<char>)
    ensures
        !strip_ansi_spec(s).contains('\x1b'),
{
    lemma_run_no_escape(s, 0, ScanState::Text);
}

/// Stripping never makes text longer.
pub proof fn strip_never_lengthens(s: Seq<char>)
    ensures
        strip_ansi_spec(s).len() <= s.len(),
{
    lemma_run_len(s, 0, ScanState::Text);
}

/// Text without any `ESC` character comes back unchanged.
pub proof fn strip_keeps_plain_text(s: Seq<char>)
    requires
        !s.contains('\x1b'),
    ensures
        strip_ansi_spec(s) == s,
{
    lemma_run_plain(s, 0);
    assert(s.skip(0) =~= s);
}

/// Stripping twice gives what stripping once gives.
pub proof fn strip_is_idempotent(s: Seq<char>)
    ensures
        strip_ansi_spec(strip_ansi_spec(s)) == strip_ansi_spec(s),
{
    strip_leaves_no_escape(s);
    strip_keeps_plain_text(strip_ansi_spec(s));
}

proof fn lemma_run_shift(p: Seq<char>, s: Seq<char>, j: nat, st: ScanState)
    ensures
        strip_run(p + s, p.len() + j, st) == strip_run(s, j, st),
    decreases s.len() - j,
{
    if j < s.len() {
        assert((p + s)[(p.len() + j) as int] == s[j as int]);
        lemma_run_shift(p, s, j + 1, ScanState::Text);
        lemma_run_shift(p, s, j + 1, ScanState::Escape);
        lemma_run_shift(p, s, j + 1, ScanState::Csi);
        lemma_run_shift(p, s, j + 1, ScanState::Osc);
        lemma_run_shift(p, s, j + 1, ScanState::OscEscape);
        assert(p.len() + j + 1 == p.len() + (j + 1));
    }
}

proof fn lemma_run_plain_prefix(p: Seq<char>, s: Seq<char>, i: nat)
    requires
        !p.contains(esc()),
        i <= p.len(),
    ensures
        strip_run(p + s, i, ScanState::Text) == p.skip(i as int) + strip_ansi_spec(s),
    decreases p.len() - i,
{
    if i < p.len() {
        assert(p[i as int] != esc());
        assert((p + s)[i as int] == p[i as int]);
        lemma_run_plain_prefix(p, s, i + 1);
        assert(p.skip(i as int) =~= seq![p[i as int]] + p.skip((i + 1) as int));
        assert(p.skip(i as int) + strip_ansi_spec(s) =~= seq![p[i as int]] + (p.skip((i + 1) as int)
            + strip_ansi_spec(s)));
    } else {
        lemma_run_shift(p, s, 0, ScanState::Text);
        assert(p.len() + 0 == i);
        assert(p.skip(i as int) =~= Seq::<char>::empty());
        assert(p.skip(i as int) + strip_ansi_spec(s) =~= strip_ansi_spec(s));
    }
}

/// Text without any `ESC` character passes through unchanged in front of any
/// other text: stripping `p + s` gives `p` followed by the stripped `s`.
pub proof fn strip_keeps_plain_prefix(p: Seq<char>, s: Seq<char>)
    requires
        !p.contains('\x1b'),
    ensures
        strip_ansi_spec(p + s) == p + strip_ansi_spec(s),
{
    lemma_run_plain_prefix(p, s, 0);
    assert(p.skip(0) =~= p);
}

proof fn lemma_csi_body(q: Seq<char>, start: nat, ps: Seq<char>, i: nat)
    requires
        start + ps.len() < q.len(),
        start <= i <= start + ps.len(),
        q.subrange(start as int, (start + ps.len()) as int) == ps,
        forall|k: int| 0 <= k < ps.len() ==> !('\x40' <= #[trigger] ps[k] <= '\x7e'),
        '\x40' <= q[(start + ps.len()) as int] <= '\x7e',
    ensures
        strip_run(q, i, ScanState::Csi) == strip_run(q, start + ps.len() + 1, ScanState::Text),
    decreases start + ps.len() - i,
{
    if i < start + ps.len() {
        assert(q[i as int] == ps[(i - start) as int]);
        lemma_csi_body(q, start, ps, i + 1);
    }
}

proof fn lemma_osc_body(q: Seq<char>, start: nat, b: Seq<char>, i: nat)
    requires
        start + b.len() <= q.len(),
        start <= i <= start + b.len(),
        q.subrange(start as int, (start + b.len()) as int) == b,
        forall|k: int| 0 <= k < b.len() ==> #[trigger] b[k] != '\x07' && b[k] != '\x1b',
    ensures
        strip_run(q, i, ScanState::Osc) == strip_run(q, start + b.len(), ScanState::Osc),
    decreases start + b.len() - i,
{
    if i < start + b.len() {
        assert(q[i as int] == b[(i - start) as int]);
        lemma_osc_body(q, start, b, i + 1);
    }
}

/// A control sequence `ESC [` ends at its first character in `0x40..=0x7E` (its
/// final byte): the parameter characters before it, none of them in that range,
/// and the final byte are dropped, and what follows is stripped as if the
/// sequence had not been there.
pub proof fn strip_drops_control_sequence(ps: Seq<char>, f: char, r: Seq<char>)
    requires
        forall|k: int| 0 <= k < ps.len() ==> !('\x40' <= #[trigger] ps[k] <= '\x7e'),
        '\x40' <= f <= '\x7e',
    ensures
        strip_ansi_spec(seq!['\x1b', '['] + ps + seq![f] + r) == strip_ansi_spec(r),
{
    let pre = seq!['\x1b', '['] + ps + seq![f];
    let q = pre + r;
    assert(q[0] == '\x1b');
    assert(q[1] == '[');
    assert(q.subrange(2, (2 + ps.len()) as int) =~= ps);
    assert(q[(2 + ps.len()) as int] == f);
    lemma_csi_body(q, 2, ps, 2);
    assert(strip_run(q, 0, ScanState::Text) == strip_run(q, 1, ScanState::Escape));
    assert(strip_run(q, 1, ScanState::Escape) == strip_run(q, 2, ScanState::Csi));
    lemma_run_shift(pre, r, 0, ScanState::Text);
    assert(pre.len() + 0 == 2 + ps.len() + 1);
}

/// An operating-system command `ESC ]` runs to `BEL`: its body, which holds
/// neither `BEL` nor `ESC`, and the `BEL` are dropped.
pub proof fn strip_drops_command_ended_by_bel(b: Seq<char>, r: Seq<char>)
    requires
        forall|k: int| 0 <= k < b.len() ==> #[trigger] b[k] != '\x07' && b[k] != '\x1b',
    ensures
        strip_ansi_spec(seq!['\x1b', ']'] + b + seq!['\x07'] + r) == strip_ansi_spec(r),
{
    let pre = seq!['\x1b', ']'] + b + seq!['\x07'];
    let q = pre + r;
    assert(q[0] == '\x1b');
    assert(q[1] == ']');
    assert(q.subrange(2, (2 + b.len()) as int) =~= b);
    assert(q[(2 + b.len()) as int] == '\x07');
    lemma_osc_body(q, 2, b, 2);
    assert(strip_run(q, 0, ScanState::Text) == strip_run(q, 1, ScanState::Escape));
    assert(strip_run(q, 1, ScanState::Escape) == strip_run(q, 2, ScanState::Osc));
    assert(strip_run(q, 2 + b.len(), ScanState::Osc) == strip_run(q, 2 + b.len() + 1, ScanState::Text));
    lemma_run_shift(pre, r, 0, ScanState::Text);
    assert(pre.len() + 0 == 2 + b.len() + 1);
}

/// An operating-system command `ESC ]` also ends at `ESC \`: its body, which
/// holds neither `BEL` nor `ESC`, and the terminator are dropped.
pub proof fn strip_drops_command_ended_by_st(b: Seq<char>, r: Seq<char>)
    requires
        forall|k: int| 0 <= k < b.len() ==> #[trigger] b[k] != '\x07' && b[k] != '\x1b',
    ensures
        strip_ansi_spec(seq!['\x1b', ']'] + b + seq!['\x1b', '\\'] + r) == strip_ansi_spec(r),
{
    let pre = seq!['\x1b', ']'] + b + seq!['\x1b', '\\'];
    let q = pre + r;
    assert(q[0] == '\x1b');
    assert(q[1] == ']');
    assert(q.subrange(2, (2 + b.len()) as int) =~= b);
    assert(q[(2 + b.len()) as int] == '\x1b');
    assert(q[(2 + b.len() + 1) as int] == '\\');
    lemma_osc_body(q, 2, b, 2);
    assert(strip_run(q, 0, ScanState::Text) == strip_run(q, 1, ScanState::Escape));
    assert(strip_run(q, 1, ScanState::Escape) == strip_run(q, 2, ScanState::Osc));
    assert(strip_run(q, 2 + b.len(), ScanState::Osc) == strip_run(q, 2 + b.len() + 1, ScanState::OscEscape));
    assert(strip_run(q, 2 + b.len() + 1, ScanState::OscEscape) == strip_run(
        q,
        2 + b.len() + 2,
        ScanState::Text,
    ));
    lemma_run_shift(pre, r, 0, ScanState::Text);
    assert(pre.len() + 0 == 2 + b.len() + 2);
}

/// `ESC` followed by any character other than `[` and `]` is a two-character
/// escape: both are dropped.
pub proof fn strip_drops_two_character_escape(c: char, r: Seq<char>)
    requires
        c != '[',
        c != ']',
    ensures
        strip_ansi_spec(seq!['\x1b', c] + r) == strip_ansi_spec(r),
{
    let pre = seq!['\x1b', c];
    let q = pre + r;
    assert(q[0] == '\x1b');
    assert(q[1] == c);
    assert(strip_run(q, 0, ScanState::Text) == strip_run(q, 1, ScanState::Escape));
    assert(strip_run(q, 1, ScanState::Escape) == strip_run(q, 2, ScanState::Text));
    lemma_run_shift(pre, r, 0, ScanState::Text);
    assert(pre.len() + 0 == 2);
}

} // verus!
