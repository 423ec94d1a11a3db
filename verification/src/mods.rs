//! 特调 groups: which groups are settled by themselves, which are toggled and
//! which take one value, and the order JSON of the chosen values.
use vstd::prelude::*;
use crate::meal::{Modification, ModItem, ModValue};
use crate::json::{Json, JVal, jv, jvs, entry, entries_view, lemma_obj_view};
use crate::text::{
    chars_of, split_bounds, split_on, trim, trim_bounds, parse_usize, parse_usize_spec, push_u64, push_i64,
    nat_text, int_text, bounds_hold,
};

verus! {

/// `{"code": <code>, "key": <key>, "quantity": <quantity>}`.
pub open spec fn mod_value_val(v: ModValue, key: Seq<char>, quantity: int) -> JVal {
    JVal::Obj(seq![("code"@, JVal::Str(v.code@)), ("key"@, JVal::Str(key)), ("quantity"@, JVal::Int(quantity))])
}

/// The order JSON of one 特调 value.
pub fn mod_value_json(value: &ModValue, key: &str, quantity: i64) -> (r: Json)
    ensures
        r@ == mod_value_val(*value, key@, quantity as int),
{
    let mut es: Vec<(String, Json)> = Vec::new();
    es.push(entry("code", Json::Str(value.code.clone())));
    es.push(entry("key", Json::string(key)));
    es.push(entry("quantity", Json::Int(quantity)));
    proof {
        lemma_obj_view(es);
        assert(entries_view(es@) =~= seq![
            ("code"@, JVal::Str(value.code@)),
            ("key"@, JVal::Str(key@)),
            ("quantity"@, JVal::Int(quantity as int)),
        ]);
    }
    Json::Object(es)
}

/// Every value of the group can be switched off (has an unselected key).
pub open spec fn all_toggle(item: ModItem) -> bool {
    forall|i: int| 0 <= i < item.values@.len() ==> (#[trigger] item.values@[i]).unselected_key is Some
}

/// The group has exactly one value and takes exactly one: it is settled by itself.
pub open spec fn auto_group(item: ModItem) -> bool {
    item.min_values == 1 && item.max_values == 1 && item.values@.len() == 1
}

/// The index of the first value that is selected now, 0 when none is.
pub open spec fn current_value(vals: Seq<ModValue>) -> nat
    decreases vals.len(),
{
    if vals.len() == 0 {
        0
    } else if vals[0].selected_quantity > 0 {
        0
    } else if exists|i: int| 0 < i < vals.len() && (#[trigger] vals[i]).selected_quantity > 0 {
        1 + current_value(vals.drop_first())
    } else {
        0
    }
}

/// How a 特调 group is presented.
#[derive(Debug)]
pub enum ModGroupStart {
    /// No values: nothing to choose.
    Empty,
    /// A single value that must be taken: these values, without asking.
    Auto(Vec<Json>),
    /// Values switched on and off, starting from these marks.
    Toggle(Vec<bool>),
    /// One value to choose, the given index first.
    Single(usize),
}

/// The initial marks of a toggled group: the values selected now.
pub open spec fn initial_marks(item: ModItem) -> Seq<bool> {
    Seq::new(item.values@.len(), |i: int| item.values@[i].selected_quantity > 0)
}

/// Whether a value is selected now.
fn marked(v: &ModValue) -> (r: bool)
    ensures
        r == (v.selected_quantity > 0),
{
    v.selected_quantity > 0
}

/// How a 特调 group is presented: empty; settled by itself; toggled, when
/// every value can be switched off; or one value to choose.
pub fn mod_group_start(item: &ModItem) -> (r: ModGroupStart)
    ensures
        match r {
            ModGroupStart::Empty => item.values@.len() == 0,
            ModGroupStart::Auto(v) => item.values@.len() > 0 && auto_group(*item) && jvs(v@) == seq![
                mod_value_val(item.values@[0], item.values@[0].selected_key@, 1),
            ],
            ModGroupStart::Toggle(m) => item.values@.len() > 0 && !auto_group(*item) && all_toggle(*item) && m@
                == initial_marks(*item),
            ModGroupStart::Single(c) => item.values@.len() > 0 && !auto_group(*item) && !all_toggle(*item) && c
                == current_value(item.values@) && c < item.values@.len(),
        },
{
    let n = item.values.len();
    if n == 0 {
        return ModGroupStart::Empty;
    }
    if item.min_values == 1 && item.max_values == 1 && n == 1 {
        let v = &item.values[0];
        let j = mod_value_json(v, v.selected_key.as_str(), 1);
        let mut out: Vec<Json> = Vec::new();
        out.push(j);
        assert(jvs(out@) =~= seq![mod_value_val(item.values@[0], item.values@[0].selected_key@, 1)]);
        return ModGroupStart::Auto(out);
    }
    let mut toggle = true;
    let mut i: usize = 0;
    while i < n
        invariant
            i <= n == item.values@.len(),
            toggle == forall|k: int| 0 <= k < i ==> (#[trigger] item.values@[k]).unselected_key is Some,
        decreases n - i,
    {
        if item.values[i].unselected_key.is_none() {
            toggle = false;
        }
        i += 1;
    }
    if toggle {
        let mut marks: Vec<bool> = Vec::new();
        let mut k: usize = 0;
        while k < n
            invariant
                k <= n == item.values@.len(),
                marks@ == initial_marks(*item).take(k as int),
            decreases n - k,
        {
            marks.push(marked(&item.values[k]));
            assert(initial_marks(*item).take(k + 1) =~= initial_marks(*item).take(k as int).push(
                initial_marks(*item)[k as int],
            ));
            k += 1;
        }
        assert(initial_marks(*item).take(n as int) =~= initial_marks(*item));
        return ModGroupStart::Toggle(marks);
    }
    let mut c: usize = 0;
    assert(item.values@.skip(0) =~= item.values@);
    while c < n
        invariant
            c <= n == item.values@.len(),
            n > 0,
            !all_toggle(*item),
            !auto_group(*item),
            forall|k: int| 0 <= k < c ==> (#[trigger] item.values@[k]).selected_quantity <= 0,
            current_value(item.values@) == if exists|k: int| c <= k < n && (#[trigger] item.values@[k]).selected_quantity > 0 {
                c + current_value(item.values@.skip(c as int))
            } else {
                0
            },
        decreases n - c,
    {
        if item.values[c].selected_quantity > 0 {
            assert(item.values@.skip(c as int)[0] == item.values@[c as int]);
            assert(current_value(item.values@.skip(c as int)) == 0);
            return ModGroupStart::Single(c);
        }
        proof {
            let s = item.values@.skip(c as int);
            assert(s.drop_first() =~= item.values@.skip(c + 1));
            assert(s[0] == item.values@[c as int]);
            if exists|k: int| c + 1 <= k < n && (#[trigger] item.values@[k]).selected_quantity > 0 {
                let k = choose|k: int| c + 1 <= k < n && (#[trigger] item.values@[k]).selected_quantity > 0;
                assert(s[k - c].selected_quantity > 0);
            } else {
                assert forall|k: int| 0 < k < s.len() implies (#[trigger] s[k]).selected_quantity <= 0 by {
                    assert(s[k] == item.values@[c + k]);
                }
            }
        }
        c += 1;
    }
    ModGroupStart::Single(0)
}

} // verus!

verus! {

/// The marks after applying the first `k` parts of a toggle answer, and
/// whether all of them were valid; toggling stops at the first invalid part.
pub open spec fn toggle_fold(parts: Seq<Seq<char>>, marks: Seq<bool>, k: int) -> (Seq<bool>, bool)
    decreases k,
{
    if k <= 0 {
        (marks, true)
    } else {
        let prev = toggle_fold(parts, marks, k - 1);
        if !prev.1 {
            prev
        } else {
            match parse_usize_spec(trim(parts[k - 1])) {
                None => (prev.0, false),
                Some(n) => if 1 <= n <= prev.0.len() {
                    (prev.0.update(n - 1, !prev.0[n - 1]), true)
                } else {
                    (prev.0, false)
                },
            }
        }
    }
}

/// The number of set marks.
pub open spec fn count_marks(marks: Seq<bool>) -> nat
    decreases marks.len(),
{
    if marks.len() == 0 {
        0
    } else {
        count_marks(marks.drop_last()) + if marks.last() { 1nat } else { 0nat }
    }
}

/// The order JSON of a toggled group: each marked value with its selected key
/// and quantity 1, each other value with its unselected key and quantity 0.
pub open spec fn toggle_values(item: ModItem, marks: Seq<bool>) -> Seq<JVal> {
    Seq::new(
        item.values@.len(),
        |i: int|
            if marks[i] {
                mod_value_val(item.values@[i], item.values@[i].selected_key@, 1)
            } else {
                mod_value_val(
                    item.values@[i],
                    match item.values@[i].unselected_key {
                        Some(k) => k@,
                        None => Seq::empty(),
                    },
                    0,
                )
            },
    )
}

/// The order JSON of a toggled group with the marks `marks` (see
/// [`toggle_values`]).
fn toggle_values_json(item: &ModItem, marks: &Vec<bool>) -> (r: Vec<Json>)
    requires
        marks@.len() >= item.values@.len(),
    ensures
        jvs(r@) == toggle_values(*item, marks@),
{
    let n = item.values.len();
    let mut vals: Vec<Json> = Vec::new();
    let mut k: usize = 0;
    while k < n
        invariant
            k <= n == item.values@.len() <= marks@.len(),
            jvs(vals@) == toggle_values(*item, marks@).take(k as int),
        decreases n - k,
    {
        let v = &item.values[k];
        let j = if marks[k] {
            mod_value_json(v, v.selected_key.as_str(), 1)
        } else {
            match &v.unselected_key {
                Some(u) => mod_value_json(v, u.as_str(), 0),
                None => mod_value_json(v, "", 0),
            }
        };
        proof {
            reveal_strlit("");
            assert(""@ =~= Seq::<char>::empty());
            assert(jv(j) == toggle_values(*item, marks@)[k as int]);
        }
        let ghost before = vals@;
        vals.push(j);
        assert(jvs(vals@) =~= jvs(before).push(jv(j)));
        assert(toggle_values(*item, marks@).take(k + 1) =~= toggle_values(*item, marks@).take(k as int).push(
            toggle_values(*item, marks@)[k as int],
        ));
        k += 1;
    }
    assert(toggle_values(*item, marks@).take(n as int) =~= toggle_values(*item, marks@));
    vals
}

/// The marks after the space key on the 特调 page of a toggled group at the
/// value `i`: the mark flips, but is switched on only while fewer than the
/// group's maximum are on.
pub open spec fn page_toggle_spec(item: ModItem, marks: Seq<bool>, i: int) -> Seq<bool> {
    if marks[i] || count_marks(marks) < item.max_values {
        marks.update(i, !marks[i])
    } else {
        marks
    }
}

/// The space key on the 特调 page of a toggled group (see [`page_toggle_spec`]).
pub fn mods_page_toggle(item: &ModItem, marks: &mut Vec<bool>, i: usize)
    requires
        i < old(marks)@.len(),
    ensures
        final(marks)@ == page_toggle_spec(*item, old(marks)@, i as int),
{
    let selected = crate::nav::count_true(marks);
    let on = marks[i];
    if on || (selected as i128) < (item.max_values as i128) {
        marks.set(i, !on);
    }
}

/// What Enter on the 特调 page does.
#[derive(Debug)]
pub enum PageConfirm {
    /// The number of marks is outside the group's bounds: this message.
    Retry(String),
    /// The group's order JSON.
    Done(Vec<Json>),
}

/// The message for marks outside the bounds of a group on the 特调 page.
pub open spec fn page_bounds_text(item: ModItem) -> Seq<char> {
    "请选择 "@ + int_text(item.min_values as int) + "~"@ + int_text(item.max_values as int) + " 项"@
}

/// Enter on the 特调 page: for a toggled group (`multi`), the values of the
/// marks when their number is within the group's bounds, else the message;
/// for a one-value group, the value under the cursor.
pub fn mods_page_confirm(item: &ModItem, multi: bool, marks: &Vec<bool>, cursor: usize) -> (r: PageConfirm)
    requires
        multi ==> marks@.len() >= item.values@.len(),
        !multi ==> cursor < item.values@.len(),
    ensures
        multi ==> match r {
            PageConfirm::Done(v) => item.min_values <= count_marks(marks@) <= item.max_values
                && jvs(v@) == toggle_values(*item, marks@),
            PageConfirm::Retry(m) => !(item.min_values <= count_marks(marks@) <= item.max_values)
                && m@ == page_bounds_text(*item),
        },
        !multi ==> (r matches PageConfirm::Done(v) && jvs(v@) == seq![
            mod_value_val(item.values@[cursor as int], item.values@[cursor as int].selected_key@, 1),
        ]),
{
    if multi {
        let count = crate::nav::count_true(marks);
        if (count as i128) < (item.min_values as i128) || (count as i128) > (item.max_values as i128) {
            let mut s = "请选择 ".to_owned();
            push_i64(&mut s, item.min_values);
            s.append("~");
            push_i64(&mut s, item.max_values);
            s.append(" 项");
            assert(s@ =~= page_bounds_text(*item));
            return PageConfirm::Retry(s);
        }
        PageConfirm::Done(toggle_values_json(item, marks))
    } else {
        let v = &item.values[cursor];
        let j = mod_value_json(v, v.selected_key.as_str(), 1);
        let mut out: Vec<Json> = Vec::new();
        out.push(j);
        assert(jvs(out@) =~= seq![
            mod_value_val(item.values@[cursor as int], item.values@[cursor as int].selected_key@, 1),
        ]);
        PageConfirm::Done(out)
    }
}

/// What an answer at a toggled group does.
#[derive(Debug)]
pub enum ToggleOutcome {
    /// Empty answer with an allowed number of marks: the group's values.
    Done(Vec<Json>),
    /// Empty answer with too few or too many marks: this message, marks unchanged.
    Retry(String),
    /// Numbers toggled; when one was invalid the toggling stopped there and
    /// the message is given.
    Toggled(Option<String>),
}

/// The message for a count of marks outside the group's bounds.
pub open spec fn count_text(count: nat, item: ModItem) -> Seq<char> {
    "当前已选"@ + nat_text(count) + "项，请选择"@ + int_text(item.min_values as int) + "~"@ + int_text(
        item.max_values as int,
    ) + "项后回车"@
}

/// Applies an answer at a toggled group (see [`toggle_fold`], [`count_marks`],
/// [`toggle_values`]).
pub fn toggle_step(item: &ModItem, marks: &mut Vec<bool>, answer: &str) -> (r: ToggleOutcome)
    requires
        old(marks)@.len() == item.values@.len(),
    ensures
        final(marks)@.len() == item.values@.len(),
        answer@.len() == 0 ==> final(marks)@ == old(marks)@,
        match r {
            ToggleOutcome::Done(v) => answer@.len() == 0 && item.min_values <= count_marks(old(marks)@)
                <= item.max_values && jvs(v@) == toggle_values(*item, old(marks)@),
            ToggleOutcome::Retry(m) => answer@.len() == 0 && !(item.min_values <= count_marks(old(marks)@)
                <= item.max_values) && m@ == count_text(count_marks(old(marks)@), *item),
            ToggleOutcome::Toggled(m) => answer@.len() > 0 && {
                let res = toggle_fold(split_on(answer@, ','), old(marks)@, split_on(answer@, ',').len() as int);
                &&& final(marks)@ == res.0
                &&& res.1 <==> m is None
                &&& (m matches Some(t) ==> t@ == "编号无效，请重新输入"@)
            },
        },
{
    let n = marks.len();
    if answer.is_empty() {
        let mut count: usize = 0;
        let mut i: usize = 0;
        while i < n
            invariant
                i <= n == marks@.len(),
                count == count_marks(marks@.take(i as int)),
                count <= i,
            decreases n - i,
        {
            assert(marks@.take(i + 1).drop_last() =~= marks@.take(i as int));
            if marks[i] {
                count += 1;
            }
            i += 1;
        }
        assert(marks@.take(n as int) =~= marks@);
        let below = item.min_values > 0 && (count as u64) < (item.min_values as u64);
        let above = item.max_values < 0 || (count as u64) > (item.max_values as u64);
        if below || above {
            let mut s = String::new();
            s.append("当前已选");
            push_u64(&mut s, count as u64);
            s.append("项，请选择");
            push_i64(&mut s, item.min_values);
            s.append("~");
            push_i64(&mut s, item.max_values);
            s.append("项后回车");
            assert(s@ =~= count_text(count as nat, *item));
            return ToggleOutcome::Retry(s);
        }
        let vals = toggle_values_json(item, marks);
        return ToggleOutcome::Done(vals);
    }
    let cs = chars_of(answer);
    let pieces = split_bounds(&cs, 0, cs.len(), ',');
    assert(cs@.subrange(0, cs@.len() as int) =~= cs@);
    let ghost parts = split_on(answer@, ',');
    assert forall|j: int| 0 <= j < pieces@.len() implies bounds_hold(cs@, #[trigger] pieces@[j], parts[j]) by {
        assert(pieces@[j].0 <= pieces@[j].1);
    }
    let mut k: usize = 0;
    while k < pieces.len()
        invariant
            k <= pieces@.len() == parts.len(),
            parts == split_on(answer@, ','),
            cs@ == answer@,
            forall|j: int| 0 <= j < pieces@.len() ==> bounds_hold(cs@, #[trigger] pieces@[j], parts[j]),
            toggle_fold(parts, old(marks)@, k as int) == (marks@, true),
            marks@.len() == item.values@.len(),
            answer@.len() > 0,
        decreases pieces@.len() - k,
    {
        let (lo, hi) = pieces[k];
        assert(bounds_hold(cs@, pieces@[k as int], parts[k as int]));
        let (a, b) = trim_bounds(&cs, lo, hi);
        assert(cs@.subrange(a as int, b as int) == trim(parts[k as int]));
        let ghost before = marks@;
        let ok = match parse_usize(&cs, a, b) {
            Some(num) => {
                if 1 <= num && num <= marks.len() {
                    let cur = marks[num - 1];
                    marks.set(num - 1, !cur);
                    true
                } else {
                    false
                }
            },
            None => false,
        };
        if !ok {
            assert(marks@ == before);
            assert(toggle_fold(parts, old(marks)@, k + 1) == (before, false));
            proof {
                lemma_toggle_stop(parts, old(marks)@, k + 1, parts.len() as int);
            }
            let mut s = String::new();
            s.append("编号无效，请重新输入");
            return ToggleOutcome::Toggled(Some(s));
        }
        k += 1;
    }
    ToggleOutcome::Toggled(None)
}

proof fn lemma_toggle_stop(parts: Seq<Seq<char>>, marks: Seq<bool>, k: int, m: int)
    requires
        0 <= k <= m,
        !toggle_fold(parts, marks, k).1,
    ensures
        toggle_fold(parts, marks, m) == toggle_fold(parts, marks, k),
    decreases m - k,
{
    if k < m {
        lemma_toggle_stop(parts, marks, k, m - 1);
    }
}

/// What an answer at a one-value group does.
#[derive(Debug)]
pub enum SingleOutcome {
    /// The value at this number was chosen: its order JSON.
    Done(Vec<Json>),
    /// A number out of range: ask again.
    Retry,
    /// Not a number.
    Invalid,
}

/// Applies an answer at a one-value group whose current value is `current`:
/// empty takes the current value, a number in range takes that value.
pub fn single_step(item: &ModItem, current: usize, answer: &str) -> (r: SingleOutcome)
    requires
        current < item.values@.len(),
    ensures
        match r {
            SingleOutcome::Done(v) => exists|n: nat|
                crate::prompt::index_answer_spec(answer@, current as nat + 1) == Some(n) && 1 <= n
                    <= item.values@.len() && jvs(v@) == seq![
                    mod_value_val(item.values@[n - 1], item.values@[n - 1].selected_key@, 1),
                ],
            SingleOutcome::Retry => exists|n: nat|
                crate::prompt::index_answer_spec(answer@, current as nat + 1) == Some(n) && !(1 <= n
                    <= item.values@.len()),
            SingleOutcome::Invalid => crate::prompt::index_answer_spec(answer@, current as nat + 1) is None,
        },
{
    assert(item.values@.len() == item.values.len());
    match crate::prompt::index_answer(answer, current + 1) {
        None => SingleOutcome::Invalid,
        Some(n) => {
            if 1 <= n && n <= item.values.len() {
                let v = &item.values[n - 1];
                let j = mod_value_json(v, v.selected_key.as_str(), 1);
                let mut out: Vec<Json> = Vec::new();
                out.push(j);
                assert(jvs(out@) =~= seq![mod_value_val(item.values@[n - 1], item.values@[n - 1].selected_key@, 1)]);
                SingleOutcome::Done(out)
            } else {
                SingleOutcome::Retry
            }
        },
    }
}

/// The listing line of a value: number, mark and name.
pub open spec fn value_line_text(v: ModValue, index: nat, mark: Seq<char>) -> Seq<char> {
    "  "@ + nat_text(index + 1) + ". "@ + mark + " "@ + v.name@
}

/// The listing line of a value with the given mark.
pub fn value_line(v: &ModValue, index: usize, mark: &str) -> (r: String)
    requires
        index < usize::MAX,
    ensures
        r@ == value_line_text(*v, index as nat, mark@),
{
    let mut s = String::new();
    s.append("  ");
    push_u64(&mut s, (index + 1) as u64);
    s.append(". ");
    s.append(mark);
    s.append(" ");
    s.append(v.name.as_str());
    assert(s@ =~= value_line_text(*v, index as nat, mark@));
    s
}

} // verus!

verus! {

/// A 特调 group that needs an answer: the index of its group, its bounds, and
/// whether its values are toggled.
#[derive(Debug, Clone)]
pub struct ModGroup {
    pub index: usize,
    pub min: i64,
    pub max: i64,
    pub multi: bool,
}

/// The groups among the first `k` that need an answer, and the values of the
/// groups settled by themselves.
pub open spec fn groups_upto(items: Seq<ModItem>, k: int) -> (Seq<(int, int, int, bool)>, Seq<JVal>)
    decreases k,
{
    if k <= 0 {
        (Seq::empty(), Seq::empty())
    } else {
        let prev = groups_upto(items, k - 1);
        let item = items[k - 1];
        if item.values@.len() == 0 {
            prev
        } else if auto_group(item) {
            (prev.0, prev.1.push(mod_value_val(item.values@[0], item.values@[0].selected_key@, 1)))
        } else {
            (prev.0.push((k - 1, item.min_values as int, item.max_values as int, all_toggle(item))), prev.1)
        }
    }
}

/// The view of a group list.
pub open spec fn group_views(g: Seq<ModGroup>) -> Seq<(int, int, int, bool)> {
    Seq::new(g.len(), |i: int| (g[i].index as int, g[i].min as int, g[i].max as int, g[i].multi))
}

/// Whether every value of a group can be switched off.
pub fn is_toggle_group(item: &ModItem) -> (r: bool)
    ensures
        r == all_toggle(*item),
{
    let mut i: usize = 0;
    while i < item.values.len()
        invariant
            i <= item.values@.len(),
            forall|k: int| 0 <= k < i ==> (#[trigger] item.values@[k]).unselected_key is Some,
        decreases item.values@.len() - i,
    {
        if item.values[i].unselected_key.is_none() {
            return false;
        }
        i += 1;
    }
    true
}

/// Splits the 特调 groups of a product or choice into the groups that need an
/// answer and the values of the groups settled by themselves.
pub fn build_mod_groups(modification: &Modification) -> (r: (Vec<ModGroup>, Vec<Json>))
    ensures
        (group_views(r.0@), jvs(r.1@)) == groups_upto(modification.items@, modification.items@.len() as int),
{
    let mut groups: Vec<ModGroup> = Vec::new();
    let mut auto: Vec<Json> = Vec::new();
    let mut k: usize = 0;
    while k < modification.items.len()
        invariant
            k <= modification.items@.len(),
            (group_views(groups@), jvs(auto@)) == groups_upto(modification.items@, k as int),
        decreases modification.items@.len() - k,
    {
        let item = &modification.items[k];
        if item.values.len() > 0 {
            if item.min_values == 1 && item.max_values == 1 && item.values.len() == 1 {
                let v = &item.values[0];
                let j = mod_value_json(v, v.selected_key.as_str(), 1);
                let ghost before = auto@;
                auto.push(j);
                assert(jvs(auto@) =~= jvs(before).push(jv(j)));
            } else {
                let multi = is_toggle_group(item);
                let ghost before = groups@;
                groups.push(ModGroup { index: k, min: item.min_values, max: item.max_values, multi });
                assert(group_views(groups@) =~= group_views(before).push(
                    (k as int, item.min_values as int, item.max_values as int, multi),
                ));
            }
        }
        k += 1;
    }
    (groups, auto)
}

} // verus!
