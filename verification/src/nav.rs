//! Navigation in the full-screen ordering interface: list cursors, mouse rows,
//! width-limited status text, and the toggles of the combo page.
use vstd::prelude::*;
use crate::meal::{Round, preselected, MealDetail};
use crate::width::{char_width, char_columns};
use crate::text::{chars_of, push_char, push_u64, push_i64, nat_text, int_text};

verus! {

/// The cursor after moving up in a list of `len` entries (wrapping to the end);
/// unchanged in an empty list.
pub open spec fn prev_spec(selected: Option<usize>, len: nat) -> Option<usize> {
    if len == 0 {
        selected
    } else {
        let i = match selected { Some(i) => i as int, None => 0 };
        Some((if i == 0 { len - 1 } else { i - 1 }) as usize)
    }
}

/// The cursor after moving down in a list of `len` entries (wrapping to the
/// start); unchanged in an empty list.
pub open spec fn next_spec(selected: Option<usize>, len: nat) -> Option<usize> {
    if len == 0 {
        selected
    } else {
        let i = match selected { Some(i) => i as int, None => 0 };
        Some((if i + 1 >= len { 0 } else { i + 1 }) as usize)
    }
}

pub fn list_prev(selected: Option<usize>, len: usize) -> (r: Option<usize>)
    ensures
        r == prev_spec(selected, len as nat),
{
    if len == 0 {
        return selected;
    }
    let i = match selected {
        Some(i) => i,
        None => 0,
    };
    Some(if i == 0 { len - 1 } else { i - 1 })
}

pub fn list_next(selected: Option<usize>, len: usize) -> (r: Option<usize>)
    ensures
        r == next_spec(selected, len as nat),
{
    if len == 0 {
        return selected;
    }
    let i = match selected {
        Some(i) => i,
        None => 0,
    };
    Some(if i >= len - 1 { 0 } else { i + 1 })
}

/// Law: in a nonempty list, moving down then up returns to an entry that was
/// selected inside the list.
pub proof fn lemma_next_then_prev(i: usize, len: nat)
    requires
        i < len,
        len <= usize::MAX,
    ensures
        prev_spec(next_spec(Some(i), len), len) == Some(i),
        next_spec(prev_spec(Some(i), len), len) == Some(i),
{
}

/// The list entry under screen row `row` of a list whose border is at row
/// `top` and which is scrolled by `offset`.
pub open spec fn index_at_spec(top: u16, row: u16, offset: usize, len: nat) -> Option<usize> {
    if row < top + 1 {
        None
    } else {
        let idx = (row - top - 1) + offset;
        if idx < len { Some(idx as usize) } else { None }
    }
}

pub fn list_index_at(top: u16, row: u16, offset: usize, len: usize) -> (r: Option<usize>)
    requires
        top < u16::MAX,
        row < top + 1 || (row - top - 1) + offset <= usize::MAX,
    ensures
        r == index_at_spec(top, row, offset, len as nat),
{
    if row < top + 1 {
        return None;
    }
    let idx = (row - top - 1) as usize + offset;
    if idx < len {
        Some(idx)
    } else {
        None
    }
}

/// The longest prefix of `s` (from the `k`-th character on, with `w` columns
/// used) that fits in `width` columns, followed by `…` when something was cut.
/// A character of unknown width counts one column.
pub open spec fn truncate_from(s: Seq<char>, k: int, w: int, width: int) -> Seq<char>
    decreases s.len() - k,
{
    if k >= s.len() || k < 0 {
        Seq::empty()
    } else {
        let cw = match char_columns(s[k]) { Some(c) => c as int, None => 1 };
        if w + cw > width {
            seq!['…']
        } else {
            seq![s[k]] + truncate_from(s, k + 1, w + cw, width)
        }
    }
}

/// `s` cut to `width` columns, marked `…` where cut; empty for width 0.
pub open spec fn truncate_spec(s: Seq<char>, width: nat) -> Seq<char> {
    if width == 0 {
        Seq::empty()
    } else {
        truncate_from(s, 0, 0, width as int)
    }
}

pub fn truncate_width(s: &str, width: usize) -> (r: String)
    ensures
        r@ == truncate_spec(s@, width as nat),
{
    if width == 0 {
        return String::new();
    }
    let cs = chars_of(s);
    let mut out = String::new();
    let mut w: usize = 0;
    let mut k: usize = 0;
    while k < cs.len()
        invariant
            k <= cs@.len(),
            cs@ == s@,
            w <= width,
            width > 0,
            out@ + truncate_from(cs@, k as int, w as int, width as int) == truncate_from(cs@, 0, 0, width as int),
        decreases cs@.len() - k,
    {
        let c = cs[k];
        let cw = match char_width(c) {
            Some(x) => x,
            None => 1,
        };
        let exceeds = match w.checked_add(cw) {
            Some(total) => total > width,
            None => true,
        };
        if exceeds {
            let ghost before = out@;
            assert(truncate_from(cs@, k as int, w as int, width as int) == seq!['…']);
            push_char(&mut out, '…');
            assert(out@ =~= before + seq!['…']);
            assert(out@ =~= truncate_from(cs@, 0, 0, width as int));
            return out;
        }
        let ghost before = out@;
        push_char(&mut out, c);
        assert(before + truncate_from(cs@, k as int, w as int, width as int) =~= out@ + truncate_from(
            cs@,
            k + 1,
            w + cw,
            width as int,
        ));
        w = w + cw;
        k += 1;
    }
    assert(out@ + truncate_from(cs@, k as int, w as int, width as int) =~= out@);
    out
}

} // verus!

verus! {

/// The marks a round starts with on the combo page: its preselected choices,
/// reduced to the first of them when the round takes exactly one.
pub open spec fn initial_round_marks(round: Round) -> Seq<bool> {
    let n = round.choices@.len();
    if crate::prompt::single_choice(round) && crate::meal::any_preselected(round.choices@) {
        let first = crate::prompt::default_number(round) - 1;
        Seq::new(n, |i: int| i == first)
    } else {
        Seq::new(n, |i: int| preselected(round.choices@[i]))
    }
}

pub fn initial_round_toggles(round: &Round) -> (r: Vec<bool>)
    requires
        round.choices@.len() < usize::MAX,
    ensures
        r@ == initial_round_marks(*round),
{
    let n = round.choices.len();
    let single = round.min_quantity == 1 && round.max_quantity == 1;
    let mut any = false;
    let mut t: Vec<bool> = Vec::new();
    let mut i: usize = 0;
    while i < n
        invariant
            i <= n == round.choices@.len(),
            t@ == Seq::new(i as nat, |k: int| preselected(round.choices@[k])),
            any == exists|k: int| 0 <= k < i && preselected(#[trigger] round.choices@[k]),
        decreases n - i,
    {
        let c = &round.choices[i];
        let p = c.quantity > 0 || c.is_default == 1;
        if p {
            any = true;
        }
        t.push(p);
        assert(t@ =~= Seq::new((i + 1) as nat, |k: int| preselected(round.choices@[k])));
        i += 1;
    }
    if single && any {
        let first = crate::prompt::default_number_of(round) - 1;
        let mut u: Vec<bool> = Vec::new();
        let mut j: usize = 0;
        while j < n
            invariant
                j <= n == round.choices@.len(),
                u@ == Seq::new(j as nat, |k: int| k == first),
            decreases n - j,
        {
            u.push(j == first);
            assert(u@ =~= Seq::new((j + 1) as nat, |k: int| k == first));
            j += 1;
        }
        return u;
    }
    t
}

/// The marks after toggling choice `ci`: a one-choice round keeps only `ci`;
/// another round flips `ci`, but switches it on only while fewer than the
/// round's maximum are on.
pub open spec fn toggle_spec(round: Round, t: Seq<bool>, ci: int) -> Seq<bool> {
    if crate::prompt::single_choice(round) {
        Seq::new(t.len(), |i: int| i == ci)
    } else if t[ci] || crate::mods::count_marks(t) < round.max_quantity {
        t.update(ci, !t[ci])
    } else {
        t
    }
}

/// The number of set marks.
pub fn count_true(t: &Vec<bool>) -> (r: usize)
    ensures
        r == crate::mods::count_marks(t@),
{
    let mut count: usize = 0;
    let mut i: usize = 0;
    while i < t.len()
        invariant
            i <= t@.len(),
            count == crate::mods::count_marks(t@.take(i as int)),
            count <= i,
        decreases t@.len() - i,
    {
        assert(t@.take(i + 1).drop_last() =~= t@.take(i as int));
        if t[i] {
            count += 1;
        }
        i += 1;
    }
    assert(t@.take(t@.len() as int) =~= t@);
    count
}

pub fn toggle_choice(round: &Round, t: &mut Vec<bool>, ci: usize)
    requires
        ci < old(t)@.len(),
    ensures
        final(t)@ == toggle_spec(*round, old(t)@, ci as int),
{
    if round.min_quantity == 1 && round.max_quantity == 1 {
        let n = t.len();
        let mut i: usize = 0;
        while i < n
            invariant
                i <= n == t@.len(),
                ci < n,
                forall|k: int| 0 <= k < i ==> !#[trigger] t@[k],
            decreases n - i,
        {
            t.set(i, false);
            i += 1;
        }
        t.set(ci, true);
        assert(t@ =~= Seq::new(old(t)@.len(), |i: int| i == ci));
        return;
    }
    let selected = count_true(t);
    let on = t[ci];
    let below_max = (selected as i128) < (round.max_quantity as i128);
    if on || below_max {
        t.set(ci, !on);
    }
}

/// The chosen indices of a list of marks, in order.
pub open spec fn marked_indices(t: Seq<bool>) -> Seq<usize>
    decreases t.len(),
{
    if t.len() == 0 {
        Seq::empty()
    } else if t.last() {
        marked_indices(t.drop_last()).push((t.len() - 1) as usize)
    } else {
        marked_indices(t.drop_last())
    }
}

/// The first round whose number of marks is outside its bounds.
pub open spec fn first_bad_round(d: MealDetail, toggles: Seq<Vec<bool>>, k: int) -> Option<int>
    decreases d.rounds@.len() - k,
{
    if k >= d.rounds@.len() || k < 0 {
        None
    } else {
        let c = crate::mods::count_marks(toggles[k]@);
        if c < d.rounds@[k].min_quantity || c > d.rounds@[k].max_quantity {
            Some(k)
        } else {
            first_bad_round(d, toggles, k + 1)
        }
    }
}

/// The message for a round whose marks are out of bounds.
pub open spec fn bad_round_text(round: Round, ri: nat) -> Seq<char> {
    "轮次"@ + nat_text(ri + 1) + "【"@ + round.name@ + "】请选择 "@ + int_text(round.min_quantity as int) + "~"@
        + int_text(round.max_quantity as int) + " 项"@
}

/// Ends the combo page: the marked choices of every round, or the message
/// for the first round whose number of marks is out of bounds.
pub fn combo_done(detail: &MealDetail, toggles: &Vec<Vec<bool>>) -> (r: Result<Vec<Vec<usize>>, String>)
    requires
        toggles@.len() == detail.rounds@.len(),
    ensures
        match r {
            Ok(p) => first_bad_round(*detail, toggles@, 0) is None && crate::pick::pick_views(p@) == Seq::new(
                toggles@.len(),
                |i: int| marked_indices(toggles@[i]@),
            ),
            Err(m) => first_bad_round(*detail, toggles@, 0) matches Some(ri) && m@ == bad_round_text(
                detail.rounds@[ri],
                ri as nat,
            ),
        },
{
    let n = detail.rounds.len();
    let mut ri: usize = 0;
    while ri < n
        invariant
            ri <= n == detail.rounds@.len() == toggles@.len(),
            first_bad_round(*detail, toggles@, 0) == first_bad_round(*detail, toggles@, ri as int),
        decreases n - ri,
    {
        let round = &detail.rounds[ri];
        let c = count_true(&toggles[ri]);
        let below = (c as i128) < (round.min_quantity as i128);
        let above = (c as i128) > (round.max_quantity as i128);
        if below || above {
            let mut s = String::new();
            s.append("轮次");
            push_u64(&mut s, (ri + 1) as u64);
            s.append("【");
            s.append(round.name.as_str());
            s.append("】请选择 ");
            push_i64(&mut s, round.min_quantity);
            s.append("~");
            push_i64(&mut s, round.max_quantity);
            s.append(" 项");
            assert(s@ =~= bad_round_text(*round, ri as nat));
            return Err(s);
        }
        ri += 1;
    }
    let mut picks: Vec<Vec<usize>> = Vec::new();
    let mut k: usize = 0;
    while k < n
        invariant
            k <= n == toggles@.len(),
            crate::pick::pick_views(picks@) == Seq::new(k as nat, |i: int| marked_indices(toggles@[i]@)),
        decreases n - k,
    {
        let t = &toggles[k];
        let mut idx: Vec<usize> = Vec::new();
        let mut j: usize = 0;
        while j < t.len()
            invariant
                j <= t@.len(),
                idx@ == marked_indices(t@.take(j as int)),
            decreases t@.len() - j,
        {
            assert(t@.take(j + 1).drop_last() =~= t@.take(j as int));
            if t[j] {
                idx.push(j);
            }
            j += 1;
        }
        assert(t@.take(t@.len() as int) =~= t@);
        let ghost before = crate::pick::pick_views(picks@);
        picks.push(idx);
        assert(crate::pick::pick_views(picks@) =~= before.push(idx@));
        assert(crate::pick::pick_views(picks@) =~= Seq::new((k + 1) as nat, |i: int| marked_indices(toggles@[i]@)));
        k += 1;
    }
    Ok(picks)
}

/// Flipping one mark changes the count by one.
pub proof fn lemma_count_update(t: Seq<bool>, i: int, b: bool)
    requires
        0 <= i < t.len(),
    ensures
        crate::mods::count_marks(t.update(i, b)) + (if t[i] { 1int } else { 0int }) == crate::mods::count_marks(t) + (
        if b { 1int } else { 0int }),
    decreases t.len(),
{
    let u = t.update(i, b);
    if i == t.len() - 1 {
        assert(u.drop_last() =~= t.drop_last());
    } else {
        lemma_count_update(t.drop_last(), i, b);
        assert(u.drop_last() =~= t.drop_last().update(i, b));
    }
}

/// The marks that hold only `ci` count one.
proof fn lemma_count_one_hot(n: nat, ci: int)
    requires
        0 <= ci < n,
    ensures
        crate::mods::count_marks(Seq::new(n, |i: int| i == ci)) == 1,
    decreases n,
{
    let s = Seq::new(n, |i: int| i == ci);
    if ci == n - 1 {
        assert(s.drop_last() =~= Seq::new((n - 1) as nat, |i: int| false));
        lemma_count_none((n - 1) as nat);
    } else {
        lemma_count_one_hot((n - 1) as nat, ci);
        assert(s.drop_last() =~= Seq::new((n - 1) as nat, |i: int| i == ci));
    }
}

proof fn lemma_count_none(n: nat)
    ensures
        crate::mods::count_marks(Seq::new(n, |i: int| false)) == 0,
    decreases n,
{
    if n > 0 {
        lemma_count_none((n - 1) as nat);
        assert(Seq::new(n, |i: int| false).drop_last() =~= Seq::new((n - 1) as nat, |i: int| false));
    }
}

/// Law: toggling a choice on the combo page keeps the number of marked
/// choices within the round's maximum (a one-choice round keeps exactly one).
pub proof fn lemma_toggle_keeps_bound(round: Round, t: Seq<bool>, ci: int)
    requires
        0 <= ci < t.len(),
        crate::mods::count_marks(t) <= round.max_quantity,
    ensures
        crate::mods::count_marks(toggle_spec(round, t, ci)) <= round.max_quantity,
        crate::prompt::single_choice(round) ==> crate::mods::count_marks(toggle_spec(round, t, ci)) == 1,
{
    if crate::prompt::single_choice(round) {
        lemma_count_one_hot(t.len(), ci);
        assert(toggle_spec(round, t, ci) =~= Seq::new(t.len(), |i: int| i == ci));
    } else if t[ci] || crate::mods::count_marks(t) < round.max_quantity {
        lemma_count_update(t, ci, !t[ci]);
        assert(toggle_spec(round, t, ci) == t.update(ci, !t[ci]));
    } else {
        assert(toggle_spec(round, t, ci) == t);
    }
}

} // verus!
