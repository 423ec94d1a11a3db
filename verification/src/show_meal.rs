//! Rendering of a meal's detail: its rounds and choices, the modification
//! groups where asked for, and the default combination.
use vstd::prelude::*;
use crate::json::{Json, JVal, jvs};
use crate::show::{data_ref, 
    data_of, text_or, int_or, flag, list_or_empty, text_at, int_at, flag_at, list_at, rule, push_rule, concat,
    lemma_concat_push,
};
use crate::text::{int_text, nat_text, i64_text, push_u64, push_i64, join, join_strings, views, str_eq};

verus! {

// ---- modification groups ----

/// A modification value with its mark: `✓` where it is selected, `✗` where not.
pub open spec fn marked_value_name(v: JVal) -> Seq<char> {
    (if int_or(v, "selectedQuantity"@, 0) > 0 { "✓"@ } else { "✗"@ }) + text_or(v, "name"@, "-"@)
}

/// The first five values of a group, marked, with `...` where there are more,
/// joined with ` / `.
pub open spec fn value_names_text(vs: Seq<JVal>) -> Seq<char> {
    let n: nat = if vs.len() > 5 { 5 } else { vs.len() };
    let names = Seq::new(n, |k: int| marked_value_name(vs[k]));
    join(if vs.len() > 5 { names.push("..."@) } else { names }, " / "@)
}

/// The line of a modification group: its values and its bounds.
pub open spec fn mod_group_line(item: JVal) -> Seq<char> {
    let names = match item.arr_at("values"@) {
        Some(vs) => value_names_text(vs),
        None => Seq::empty(),
    };
    "        特调组: "@ + names + " (选"@ + int_text(int_or(item, "minValues"@, 0)) + "~"@ + int_text(
        int_or(item, "maxValues"@, 0),
    ) + ")\n"@
}

/// The lines of the modification groups of `modification`.
pub open spec fn mod_groups_text(modification: JVal) -> Seq<char> {
    match modification.arr_at("items"@) {
        Some(items) => concat(Seq::new(items.len(), |k: int| mod_group_line(items[k]))),
        None => Seq::empty(),
    }
}

fn value_names(vs: &Vec<Json>) -> (r: String)
    ensures
        r@ == value_names_text(jvs(vs@)),
{
    let n: usize = if vs.len() > 5 {
        5
    } else {
        vs.len()
    };
    let mut names: Vec<String> = Vec::new();
    let mut k: usize = 0;
    while k < n
        invariant
            k <= n <= vs@.len(),
            views(names@) == Seq::new(k as nat, |j: int| marked_value_name(vs@[j]@)),
        decreases n - k,
    {
        let v = &vs[k];
        let mut t = if int_at(v, "selectedQuantity", 0) > 0 {
            "✓".to_owned()
        } else {
            "✗".to_owned()
        };
        let name = text_at(v, "name", "-");
        t.append(name.as_str());
        let ghost before = names@;
        names.push(t);
        assert(views(names@) =~= views(before).push(t@));
        assert(views(names@) =~= Seq::new((k + 1) as nat, |j: int| marked_value_name(vs@[j]@)));
        k += 1;
    }
    let ghost items = jvs(vs@);
    assert(Seq::new(n as nat, |j: int| marked_value_name(vs@[j]@)) =~= Seq::new(n as nat, |j: int| marked_value_name(items[j])));
    if vs.len() > 5 {
        let ghost before = names@;
        names.push("...".to_owned());
        assert(views(names@) =~= views(before).push("..."@));
    }
    join_strings(&names, " / ")
}

fn mod_group(item: &Json) -> (r: String)
    ensures
        r@ == mod_group_line(item@),
{
    let mut out = "        特调组: ".to_owned();
    match item.get_array("values") {
        Some(vs) => {
            let names = value_names(vs);
            out.append(names.as_str());
        },
        None => {},
    }
    out.append(" (选");
    push_i64(&mut out, int_at(item, "minValues", 0));
    out.append("~");
    push_i64(&mut out, int_at(item, "maxValues", 0));
    out.append(")\n");
    assert(out@ =~= mod_group_line(item@));
    out
}

/// Appends the lines of the modification groups (see [`mod_groups_text`]).
pub fn append_modification_groups(out: &mut String, modification: &Json)
    ensures
        final(out)@ == old(out)@ + mod_groups_text(modification@),
{
    match modification.get_array("items") {
        Some(items) => {
            let mut k: usize = 0;
            assert(out@ =~= old(out)@ + concat(Seq::new(0, |j: int| mod_group_line(items@[j]@))));
            while k < items.len()
                invariant
                    k <= items@.len(),
                    out@ == old(out)@ + concat(Seq::new(k as nat, |j: int| mod_group_line(items@[j]@))),
                decreases items@.len() - k,
            {
                let line = mod_group(&items[k]);
                out.append(line.as_str());
                proof {
                    let f = |j: int| mod_group_line(items@[j]@);
                    assert(Seq::new((k + 1) as nat, f) =~= Seq::new(k as nat, f).push(f(k as int)));
                    lemma_concat_push(Seq::new(k as nat, f), f(k as int));
                }
                k += 1;
            }
            assert(Seq::new(items@.len(), |j: int| mod_group_line(items@[j]@)) =~= Seq::new(items@.len(), |j: int| mod_group_line(jvs(items@)[j])));
        },
        None => {
            assert(out@ =~= old(out)@ + mod_groups_text(modification@));
        },
    }
}

// ---- rounds and choices ----

/// Whether a choice is part of the default combination.
pub open spec fn default_choice_val(c: JVal) -> bool {
    int_or(c, "isDefault"@, 0) == 1 || int_or(c, "quantity"@, 0) > 0
}

/// The price difference shown for a choice, `+ ¥0` shown as `¥0`.
pub open spec fn diff_price_text(c: JVal) -> Seq<char> {
    let p = text_or(c, "diffPrice"@, ""@);
    if p == "+ ¥0"@ { "¥0"@ } else { p }
}

/// The marks of a choice: its price difference, `【可特调】` and `[默认]`, where they apply.
pub open spec fn choice_marks(c: JVal) -> Seq<Seq<char>> {
    let dp = diff_price_text(c);
    (if dp.len() > 0 { seq![dp] } else { Seq::empty() })
        + (if flag(c, "supportModify"@) { seq!["【可特调】"@] } else { Seq::empty() })
        + (if default_choice_val(c) { seq!["[默认]"@] } else { Seq::empty() })
}

/// The lines of a choice: number, name and marks, then its modification
/// groups where they are shown.
pub open spec fn choice_block_text(c: JVal, index: nat, show_mods: bool) -> Seq<char> {
    let marks = choice_marks(c);
    "    "@ + nat_text(index + 1) + ". "@ + text_or(c, "name"@, "-"@) + (if marks.len() == 0 {
        Seq::empty()
    } else {
        " "@ + join(marks, " "@)
    }) + "\n"@ + if show_mods {
        match c.get("modification"@) {
            Some(m) => mod_groups_text(m),
            None => Seq::empty(),
        }
    } else {
        Seq::empty()
    }
}

/// The header line of a round: number, name, bounds, chosen count, and `*`
/// where the chosen count reaches the minimum.
pub open spec fn round_head_text(round: JVal, index: nat) -> Seq<char> {
    let minq = int_or(round, "minQuantity"@, 0);
    let q = int_or(round, "quantity"@, 0);
    "  轮次"@ + nat_text(index + 1) + "【"@ + text_or(round, "name"@, "选配"@) + "】 (选"@ + int_text(minq) + "~"@
        + int_text(int_or(round, "maxQuantity"@, 0)) + "项, 已选"@ + int_text(q) + ")"@ + (if q >= minq {
        "*"@
    } else {
        Seq::empty()
    }) + "\n"@
}

/// The lines of a round: its header, then its choices.
pub open spec fn round_block_text(round: JVal, index: nat, show_mods: bool) -> Seq<char> {
    round_head_text(round, index) + match round.arr_at("choices"@) {
        Some(cs) => concat(Seq::new(cs.len(), |k: int| choice_block_text(cs[k], k as nat, show_mods))),
        None => Seq::empty(),
    }
}

#[verifier::rlimit(40)]
fn choice_block(c: &Json, index: usize, show_mods: bool) -> (r: String)
    requires
        index < usize::MAX,
    ensures
        r@ == choice_block_text(c@, index as nat, show_mods),
{
    let mut out = "    ".to_owned();
    push_u64(&mut out, (index + 1) as u64);
    out.append(". ");
    let name = text_at(c, "name", "-");
    out.append(name.as_str());
    let dp0 = text_at(c, "diffPrice", "");
    let dp = if str_eq(dp0.as_str(), "+ ¥0") {
        "¥0".to_owned()
    } else {
        dp0
    };
    let mut marks: Vec<String> = Vec::new();
    if !dp.as_str().is_empty() {
        marks.push(dp);
    }
    let ghost m1 = views(marks@);
    if flag_at(c, "supportModify") {
        marks.push("【可特调】".to_owned());
    }
    let ghost m2 = views(marks@);
    if int_at(c, "isDefault", 0) == 1 || int_at(c, "quantity", 0) > 0 {
        marks.push("[默认]".to_owned());
    }
    assert(views(marks@) =~= choice_marks(c@));
    if marks.len() > 0 {
        out.append(" ");
        let joined = join_strings(&marks, " ");
        out.append(joined.as_str());
    }
    out.append("\n");
    let ghost head = out@;
    if show_mods {
        match c.get("modification") {
            Some(m) => append_modification_groups(&mut out, m),
            None => {},
        }
    }
    assert(out@ =~= choice_block_text(c@, index as nat, show_mods));
    out
}

#[verifier::rlimit(40)]
fn round_head(round: &Json, index: usize) -> (r: String)
    requires
        index < usize::MAX,
    ensures
        r@ == round_head_text(round@, index as nat),
{
    let minq = int_at(round, "minQuantity", 0);
    let q = int_at(round, "quantity", 0);
    let mut out = "  轮次".to_owned();
    push_u64(&mut out, (index + 1) as u64);
    out.append("【");
    let name = text_at(round, "name", "选配");
    out.append(name.as_str());
    out.append("】 (选");
    push_i64(&mut out, minq);
    out.append("~");
    push_i64(&mut out, int_at(round, "maxQuantity", 0));
    out.append("项, 已选");
    push_i64(&mut out, q);
    out.append(")");
    if q >= minq {
        out.append("*");
    }
    out.append("\n");
    assert(out@ =~= round_head_text(round@, index as nat));
    out
}

fn round_block(round: &Json, index: usize, show_mods: bool) -> (r: String)
    requires
        index < usize::MAX,
    ensures
        r@ == round_block_text(round@, index as nat, show_mods),
{
    let mut out = round_head(round, index);
    let ghost head = out@;
    match round.get_array("choices") {
        Some(cs) => {
            let mut k: usize = 0;
            assert(out@ =~= head + concat(Seq::new(0, |j: int| choice_block_text(cs@[j]@, j as nat, show_mods))));
            while k < cs.len()
                invariant
                    k <= cs@.len(),
                    out@ == head + concat(Seq::new(k as nat, |j: int| choice_block_text(cs@[j]@, j as nat, show_mods))),
                decreases cs@.len() - k,
            {
                let block = choice_block(&cs[k], k, show_mods);
                out.append(block.as_str());
                proof {
                    let f = |j: int| choice_block_text(cs@[j]@, j as nat, show_mods);
                    assert(Seq::new((k + 1) as nat, f) =~= Seq::new(k as nat, f).push(f(k as int)));
                    lemma_concat_push(Seq::new(k as nat, f), f(k as int));
                }
                k += 1;
            }
            assert(Seq::new(cs@.len(), |j: int| choice_block_text(cs@[j]@, j as nat, show_mods)) =~= Seq::new(
                cs@.len(),
                |j: int| choice_block_text(jvs(cs@)[j], j as nat, show_mods),
            ));
        },
        None => {},
    }
    out
}

// ---- default combination ----

/// The names of the default choices of a round.
pub open spec fn default_names(cs: Seq<JVal>) -> Seq<Seq<char>>
    decreases cs.len(),
{
    if cs.len() == 0 {
        Seq::empty()
    } else {
        let prev = default_names(cs.drop_last());
        let c = cs.last();
        if default_choice_val(c) {
            match c.str_at("name"@) {
                Some(n) => prev.push(n),
                None => prev,
            }
        } else {
            prev
        }
    }
}

/// The default combination, one `round: name + name` part per round with
/// default choices.
pub open spec fn default_combos(rounds: Seq<JVal>) -> Seq<Seq<char>>
    decreases rounds.len(),
{
    if rounds.len() == 0 {
        Seq::empty()
    } else {
        let prev = default_combos(rounds.drop_last());
        let round = rounds.last();
        match round.arr_at("choices"@) {
            Some(cs) => {
                let names = default_names(cs);
                if names.len() == 0 {
                    prev
                } else {
                    prev.push(text_or(round, "name"@, "选配"@) + ": "@ + join(names, " + "@))
                }
            },
            None => prev,
        }
    }
}

fn default_names_of(cs: &Vec<Json>) -> (r: Vec<String>)
    ensures
        views(r@) == default_names(jvs(cs@)),
{
    let mut out: Vec<String> = Vec::new();
    let mut i: usize = 0;
    while i < cs.len()
        invariant
            i <= cs@.len(),
            views(out@) == default_names(jvs(cs@).take(i as int)),
        decreases cs@.len() - i,
    {
        assert(jvs(cs@).take(i + 1).drop_last() =~= jvs(cs@).take(i as int));
        assert(jvs(cs@).take(i + 1).last() == cs@[i as int]@);
        let c = &cs[i];
        if int_at(c, "isDefault", 0) == 1 || int_at(c, "quantity", 0) > 0 {
            match c.get_str("name") {
                Some(n) => {
                    let ghost before = out@;
                    out.push(n.clone());
                    assert(views(out@) =~= views(before).push(n@));
                },
                None => {},
            }
        }
        i += 1;
    }
    assert(jvs(cs@).take(cs@.len() as int) =~= jvs(cs@));
    out
}

fn default_combos_of(rounds: &Vec<Json>) -> (r: Vec<String>)
    ensures
        views(r@) == default_combos(jvs(rounds@)),
{
    let mut out: Vec<String> = Vec::new();
    let mut i: usize = 0;
    while i < rounds.len()
        invariant
            i <= rounds@.len(),
            views(out@) == default_combos(jvs(rounds@).take(i as int)),
        decreases rounds@.len() - i,
    {
        assert(jvs(rounds@).take(i + 1).drop_last() =~= jvs(rounds@).take(i as int));
        assert(jvs(rounds@).take(i + 1).last() == rounds@[i as int]@);
        let round = &rounds[i];
        match round.get_array("choices") {
            Some(cs) => {
                let names = default_names_of(cs);
                if names.len() > 0 {
                    let mut part = text_at(round, "name", "选配");
                    part.append(": ");
                    let joined = join_strings(&names, " + ");
                    part.append(joined.as_str());
                    let ghost before = out@;
                    out.push(part);
                    assert(views(out@) =~= views(before).push(part@));
                }
            },
            None => {},
        }
        i += 1;
    }
    assert(jvs(rounds@).take(rounds@.len() as int) =~= jvs(rounds@));
    out
}

// ---- the meal detail ----

/// The head of a meal detail: name (with a note where it can be modified)
/// and code.
pub open spec fn meal_head_text(d: JVal) -> Seq<char> {
    "\n🔍 餐品详情\n"@ + rule(50) + "\n"@ + "  名称: "@ + text_or(d, "name"@, "-"@) + (if flag(d, "supportModify"@) {
        " (该商品可特调)"@
    } else {
        Seq::empty()
    }) + "\n"@ + "  编码: "@ + text_or(d, "code"@, "-"@) + "\n"@
}

/// Whether the meal's own modification groups are listed: when it has no
/// rounds, modifications are shown, and it has a nonempty list of them.
pub open spec fn lists_own_mods(d: JVal, show_mods: bool) -> bool {
    show_mods && match d.get("modification"@) {
        Some(m) => list_or_empty(m, "items"@).len() > 0,
        None => false,
    }
}

/// The rounds of a meal, or its own modification groups.
pub open spec fn meal_body_text(d: JVal, show_mods: bool) -> Seq<char> {
    let rounds = list_or_empty(d, "rounds"@);
    if rounds.len() > 0 {
        "\n  🔄 选配:\n"@ + concat(Seq::new(rounds.len(), |k: int| round_block_text(rounds[k], k as nat, show_mods)))
    } else if lists_own_mods(d, show_mods) {
        "\n  可特调项:\n"@ + mod_groups_text(d.field("modification"@))
    } else {
        Seq::empty()
    }
}

/// The default combination block and the closing hint.
pub open spec fn meal_tail_text(d: JVal) -> Seq<char> {
    let combos = default_combos(list_or_empty(d, "rounds"@));
    "\n  当前默认搭配:\n"@ + "    "@ + (if combos.len() == 0 { "-"@ } else { join(combos, " + "@) }) + "\n"@
        + "  提示: 用 select 命令可交互选配并生成下单 items JSON\n"@ + "\n"@
}

/// The rendering of a meal's detail: head, rounds with their choices (and
/// modification groups when `show_mods`), and the default combination.
pub open spec fn meal_detail_text(val: JVal, show_mods: bool) -> Seq<char> {
    let d = data_of(val);
    meal_head_text(d) + meal_body_text(d, show_mods) + meal_tail_text(d)
}

#[verifier::rlimit(40)]
fn meal_head(d: &Json) -> (r: String)
    ensures
        r@ == meal_head_text(d@),
{
    let mut out = String::new();
    out.append("\n🔍 餐品详情\n");
    push_rule(&mut out, 50);
    out.append("\n");
    out.append("  名称: ");
    let name = text_at(d, "name", "-");
    out.append(name.as_str());
    if flag_at(d, "supportModify") {
        out.append(" (该商品可特调)");
    }
    out.append("\n");
    out.append("  编码: ");
    let code = text_at(d, "code", "-");
    out.append(code.as_str());
    out.append("\n");
    assert(out@ =~= meal_head_text(d@));
    out
}

#[verifier::rlimit(40)]
fn meal_body(d: &Json, show_mods: bool) -> (r: String)
    ensures
        r@ == meal_body_text(d@, show_mods),
{
    let empty: Vec<Json> = Vec::new();
    let rounds = list_at(d, "rounds", &empty);
    let mut out = String::new();
    if rounds.len() > 0 {
        out.append("\n  🔄 选配:\n");
        let ghost head = out@;
        let mut k: usize = 0;
        assert(out@ =~= head + concat(Seq::new(0, |j: int| round_block_text(rounds@[j]@, j as nat, show_mods))));
        while k < rounds.len()
            invariant
                k <= rounds@.len(),
                out@ == head + concat(Seq::new(k as nat, |j: int| round_block_text(rounds@[j]@, j as nat, show_mods))),
            decreases rounds@.len() - k,
        {
            let block = round_block(&rounds[k], k, show_mods);
            out.append(block.as_str());
            proof {
                let f = |j: int| round_block_text(rounds@[j]@, j as nat, show_mods);
                assert(Seq::new((k + 1) as nat, f) =~= Seq::new(k as nat, f).push(f(k as int)));
                lemma_concat_push(Seq::new(k as nat, f), f(k as int));
            }
            k += 1;
        }
        assert(Seq::new(rounds@.len(), |j: int| round_block_text(rounds@[j]@, j as nat, show_mods)) =~= Seq::new(
            rounds@.len(),
            |j: int| round_block_text(jvs(rounds@)[j], j as nat, show_mods),
        ));
        return out;
    }
    if show_mods {
        match d.get("modification") {
            Some(m) => {
                let empty2: Vec<Json> = Vec::new();
                let items = list_at(m, "items", &empty2);
                if items.len() > 0 {
                    out.append("\n  可特调项:\n");
                    append_modification_groups(&mut out, m);
                }
            },
            None => {},
        }
    }
    assert(out@ =~= meal_body_text(d@, show_mods));
    out
}

#[verifier::rlimit(40)]
fn meal_tail(d: &Json) -> (r: String)
    ensures
        r@ == meal_tail_text(d@),
{
    let empty: Vec<Json> = Vec::new();
    let rounds = list_at(d, "rounds", &empty);
    let combos = default_combos_of(rounds);
    let mut out = String::new();
    out.append("\n  当前默认搭配:\n");
    out.append("    ");
    if combos.len() == 0 {
        out.append("-");
    } else {
        let joined = join_strings(&combos, " + ");
        out.append(joined.as_str());
    }
    out.append("\n");
    out.append("  提示: 用 select 命令可交互选配并生成下单 items JSON\n");
    out.append("\n");
    assert(out@ =~= meal_tail_text(d@));
    out
}

/// The rendering of a meal's detail (see [`meal_detail_text`]).
pub fn format_meal_detail(val: &Json, show_mods: bool) -> (r: String)
    ensures
        r@ == meal_detail_text(val@, show_mods),
{
    let null = Json::Null;
    let d = data_ref(val, &null);
    let mut out = meal_head(d);
    let body = meal_body(d, show_mods);
    out.append(body.as_str());
    let tail = meal_tail(d);
    out.append(tail.as_str());
    out
}

} // verus!
