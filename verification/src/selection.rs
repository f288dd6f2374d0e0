//! Moving the selection over the window list: forward and backward, cyclically,
//! from one window row to the next, past the session headers.
use vstd::prelude::*;

use vstd::arithmetic::div_mod::{
    lemma_add_mod_noop, lemma_add_mod_noop_right, lemma_mod_add_multiples_vanish, lemma_mod_bound,
    lemma_mod_equivalence, lemma_mod_sub_multiples_vanish,
    lemma_small_mod, lemma_sub_mod_noop, lemma_sub_mod_noop_right,
};

use crate::app::{ItemKind, ItemView};

verus! {

/// Whether row `i` of `list` exists and is a window row.
pub open spec fn is_window_row(list: Seq<ItemView>, i: int) -> bool {
    0 <= i < list.len() && list[i].kind == ItemKind::Window
}

/// The first window row at `from + d`, `from + d + 1`, ..., `from + len`, counted
/// cyclically (modulo the length of `list`).
pub open spec fn search_forward(list: Seq<ItemView>, from: int, d: nat) -> Option<int>
    decreases list.len() + 1 - d,
{
    if list.len() == 0 || d > list.len() {
        None
    } else {
        let k = (from + d) % (list.len() as int);
        if list[k].kind == ItemKind::Window {
            Some(k)
        } else {
            search_forward(list, from, d + 1)
        }
    }
}

/// The first window row at `from - d`, `from - d - 1`, ..., `from - len`, counted
/// cyclically (modulo the length of `list`).
pub open spec fn search_backward(list: Seq<ItemView>, from: int, d: nat) -> Option<int>
    decreases list.len() + 1 - d,
{
    if list.len() == 0 || d > list.len() {
        None
    } else {
        let k = (from - d) % (list.len() as int);
        if list[k].kind == ItemKind::Window {
            Some(k)
        } else {
            search_backward(list, from, d + 1)
        }
    }
}

/// The window row that moving down from row `sel` reaches: the next window row
/// after `sel`, wrapping around past the end; `None` when the list has no window.
pub open spec fn next_window(list: Seq<ItemView>, sel: int) -> Option<int> {
    search_forward(list, sel, 1)
}

/// The window row that moving up from row `sel` reaches: the next window row
/// before `sel`, wrapping around past the start; `None` when the list has no
/// window.
pub open spec fn prev_window(list: Seq<ItemView>, sel: int) -> Option<int> {
    search_backward(list, sel, 1)
}

pub(crate) proof fn lemma_mod_succ(x: int, m: int)
    requires
        m > 0,
    ensures
        ((x % m) + 1) % m == (x + 1) % m,
{
    lemma_add_mod_noop(x, 1, m);
    lemma_add_mod_noop_right(x % m, 1, m);
}

pub(crate) proof fn lemma_mod_pred(x: int, m: int)
    requires
        m > 0,
    ensures
        ((x % m) - 1) % m == (x - 1) % m,
{
    lemma_sub_mod_noop(x, 1, m);
    lemma_sub_mod_noop_right(x % m, 1, m);
}

proof fn lemma_mod_add_sub(x: int, y: int, m: int)
    requires
        m > 0,
    ensures
        ((x % m) + y) % m == (x + y) % m,
        ((x % m) - y) % m == (x - y) % m,
{
    lemma_add_mod_noop(x, y, m);
    lemma_add_mod_noop_right(x % m, y, m);
    lemma_sub_mod_noop(x, y, m);
    lemma_sub_mod_noop_right(x % m, y, m);
}

proof fn lemma_forward_is_window(list: Seq<ItemView>, from: int, d: nat)
    ensures
        search_forward(list, from, d) matches Some(k) ==> is_window_row(list, k),
    decreases list.len() + 1 - d,
{
    if list.len() > 0 && d <= list.len() {
        lemma_mod_bound(from + d, list.len() as int);
        lemma_forward_is_window(list, from, d + 1);
    }
}

proof fn lemma_backward_is_window(list: Seq<ItemView>, from: int, d: nat)
    ensures
        search_backward(list, from, d) matches Some(k) ==> is_window_row(list, k),
    decreases list.len() + 1 - d,
{
    if list.len() > 0 && d <= list.len() {
        lemma_mod_bound(from - d, list.len() as int);
        lemma_backward_is_window(list, from, d + 1);
    }
}

/// When the row at offset `e` is a window and no row at an offset in `[d, e)`
/// is, the forward search from offset `d` stops at offset `e`.
proof fn lemma_forward_first(list: Seq<ItemView>, from: int, d: nat, e: nat)
    requires
        d <= e <= list.len(),
        list.len() > 0,
        list[(from + e) % (list.len() as int)].kind == ItemKind::Window,
        forall|e2: nat|
            d <= e2 < e ==> list[#[trigger] ((from + e2) % (list.len() as int))].kind
                != ItemKind::Window,
    ensures
        search_forward(list, from, d) == Some((from + e) % (list.len() as int)),
    decreases e - d,
{
    if d < e {
        assert(list[(from + d) % (list.len() as int)].kind != ItemKind::Window);
        lemma_forward_first(list, from, d + 1, e);
    }
}

proof fn lemma_backward_first(list: Seq<ItemView>, from: int, d: nat, e: nat)
    requires
        d <= e <= list.len(),
        list.len() > 0,
        list[(from - e) % (list.len() as int)].kind == ItemKind::Window,
        forall|e2: nat|
            d <= e2 < e ==> list[#[trigger] ((from - e2) % (list.len() as int))].kind
                != ItemKind::Window,
    ensures
        search_backward(list, from, d) == Some((from - e) % (list.len() as int)),
    decreases e - d,
{
    if d < e {
        assert(list[(from - d) % (list.len() as int)].kind != ItemKind::Window);
        lemma_backward_first(list, from, d + 1, e);
    }
}

/// The offset at which a successful forward search stops, with what it passed.
proof fn lemma_forward_witness(list: Seq<ItemView>, from: int, d: nat) -> (e: nat)
    requires
        search_forward(list, from, d) is Some,
    ensures
        d <= e <= list.len(),
        list.len() > 0,
        search_forward(list, from, d) == Some((from + e) % (list.len() as int)),
        list[(from + e) % (list.len() as int)].kind == ItemKind::Window,
        forall|e2: nat|
            d <= e2 < e ==> list[#[trigger] ((from + e2) % (list.len() as int))].kind
                != ItemKind::Window,
    decreases list.len() + 1 - d,
{
    let k = (from + d) % (list.len() as int);
    if list[k].kind == ItemKind::Window {
        d
    } else {
        lemma_forward_witness(list, from, d + 1)
    }
}

proof fn lemma_backward_witness(list: Seq<ItemView>, from: int, d: nat) -> (e: nat)
    requires
        search_backward(list, from, d) is Some,
    ensures
        d <= e <= list.len(),
        list.len() > 0,
        search_backward(list, from, d) == Some((from - e) % (list.len() as int)),
        list[(from - e) % (list.len() as int)].kind == ItemKind::Window,
        forall|e2: nat|
            d <= e2 < e ==> list[#[trigger] ((from - e2) % (list.len() as int))].kind
                != ItemKind::Window,
    decreases list.len() + 1 - d,
{
    let k = (from - d) % (list.len() as int);
    if list[k].kind == ItemKind::Window {
        d
    } else {
        lemma_backward_witness(list, from, d + 1)
    }
}

proof fn lemma_forward_some(list: Seq<ItemView>, from: int, d: nat, e: nat)
    requires
        d <= e <= list.len(),
        list.len() > 0,
        list[(from + e) % (list.len() as int)].kind == ItemKind::Window,
    ensures
        search_forward(list, from, d) is Some,
    decreases e - d,
{
    if d < e {
        lemma_forward_some(list, from, d + 1, e);
    }
}

proof fn lemma_backward_some(list: Seq<ItemView>, from: int, d: nat, e: nat)
    requires
        d <= e <= list.len(),
        list.len() > 0,
        list[(from - e) % (list.len() as int)].kind == ItemKind::Window,
    ensures
        search_backward(list, from, d) is Some,
    decreases e - d,
{
    if d < e {
        lemma_backward_some(list, from, d + 1, e);
    }
}

/// Moving down or up always lands on a window row.
pub proof fn moves_land_on_windows(list: Seq<ItemView>, sel: int)
    ensures
        next_window(list, sel) matches Some(k) ==> is_window_row(list, k),
        prev_window(list, sel) matches Some(k) ==> is_window_row(list, k),
{
    lemma_forward_is_window(list, sel, 1);
    lemma_backward_is_window(list, sel, 1);
}

/// Moving down or up finds a window row whenever the list has one.
pub proof fn moves_find_a_window(list: Seq<ItemView>, sel: int, j: int)
    requires
        is_window_row(list, j),
    ensures
        next_window(list, sel) is Some,
        prev_window(list, sel) is Some,
{
    let n = list.len() as int;
    lemma_small_mod(j as nat, n as nat);
    lemma_mod_bound(j - sel, n);
    lemma_mod_equivalence(j, sel, n);
    let e: int = if (j - sel) % n == 0 { n } else { (j - sel) % n };
    assert((sel + e) % n == j) by {
        if (j - sel) % n == 0 {
            lemma_mod_add_multiples_vanish(sel, n);
            assert(sel + n == n + sel);
        } else {
            lemma_add_mod_noop_right(sel, j - sel, n);
        }
    }
    lemma_forward_some(list, sel, 1, e as nat);
    lemma_mod_bound(sel - j, n);
    lemma_mod_equivalence(sel, j, n);
    let f: int = if (sel - j) % n == 0 { n } else { (sel - j) % n };
    assert((sel - f) % n == j) by {
        if (sel - j) % n == 0 {
            lemma_mod_sub_multiples_vanish(sel, n);
            assert(sel - n == -n + sel);
        } else {
            lemma_sub_mod_noop_right(sel, sel - j, n);
        }
    }
    lemma_backward_some(list, sel, 1, f as nat);
}

/// Moving down from a window row and then up comes back to it.
pub proof fn down_then_up_returns(list: Seq<ItemView>, sel: int)
    requires
        is_window_row(list, sel),
    ensures
        next_window(list, sel) matches Some(k) && prev_window(list, k) == Some(sel),
{
    let n = list.len() as int;
    moves_find_a_window(list, sel, sel);
    let e0 = lemma_forward_witness(list, sel, 1);
    let k = (sel + e0) % n;
    assert forall|e2: nat| 1 <= e2 < e0 implies list[#[trigger] ((k - e2) % n)].kind
        != ItemKind::Window by {
        lemma_mod_add_sub(sel + e0, e2 as int, n);
        assert(sel + e0 - e2 == sel + (e0 - e2) as nat);
        assert(list[(sel + (e0 - e2) as nat) % n].kind != ItemKind::Window);
    }
    lemma_mod_add_sub(sel + e0, e0 as int, n);
    lemma_small_mod(sel as nat, n as nat);
    assert((k - e0) % n == sel);
    lemma_backward_first(list, k, 1, e0);
}

/// Moving up from a window row and then down comes back to it.
pub proof fn up_then_down_returns(list: Seq<ItemView>, sel: int)
    requires
        is_window_row(list, sel),
    ensures
        prev_window(list, sel) matches Some(k) && next_window(list, k) == Some(sel),
{
    let n = list.len() as int;
    moves_find_a_window(list, sel, sel);
    let e0 = lemma_backward_witness(list, sel, 1);
    let k = (sel - e0) % n;
    assert forall|e2: nat| 1 <= e2 < e0 implies list[#[trigger] ((k + e2) % n)].kind
        != ItemKind::Window by {
        lemma_mod_add_sub(sel - e0, e2 as int, n);
        assert(sel - e0 + e2 == sel - (e0 - e2) as nat);
        assert(list[(sel - (e0 - e2) as nat) % n].kind != ItemKind::Window);
    }
    lemma_mod_add_sub(sel - e0, e0 as int, n);
    lemma_small_mod(sel as nat, n as nat);
    assert((k + e0) % n == sel);
    lemma_forward_first(list, k, 1, e0);
}

} // verus!
