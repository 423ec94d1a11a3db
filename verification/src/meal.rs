//! Combo meals: the detail of a meal (rounds of choices and their 特调
//! modifications), and the logic that turns a selection into an order item.
use vstd::prelude::*;
use crate::json::{Json, JVal, jv, jvs, entry, entries_view, lemma_obj_view, lemma_arr_view, clone_values, obj_lookup};
use crate::text::{push_i64, int_text, nat_text, usize_text, join, views, join_strings, push_u64};

verus! {

/// The detail of a meal as `query-meal-detail` describes it.
#[derive(Debug, Clone)]
pub struct MealDetail {
    pub code: String,
    pub name: String,
    pub image: Option<String>,
    pub support_modify: bool,
    pub modification: Option<Modification>,
    pub rounds: Vec<Round>,
}

/// One round of a combo: pick between `min_quantity` and `max_quantity` choices.
#[derive(Debug, Clone)]
pub struct Round {
    pub id: i64,
    pub name: String,
    pub quantity: i64,
    pub max_quantity: i64,
    pub min_quantity: i64,
    pub choices: Vec<Choice>,
}

/// One item that a round offers.
#[derive(Debug, Clone)]
pub struct Choice {
    pub code: String,
    pub name: String,
    pub quantity: i64,
    pub max_quantity: i64,
    pub is_default: i64,
    pub diff_price: Option<String>,
    pub support_modify: bool,
    pub modification: Option<Modification>,
}

/// The 特调 groups of a product or choice.
#[derive(Debug, Clone)]
pub struct Modification {
    pub items: Vec<ModItem>,
}

/// One 特调 group: pick between `min_values` and `max_values` of its values.
#[derive(Debug, Clone)]
pub struct ModItem {
    pub max_values: i64,
    pub min_values: i64,
    pub values: Vec<ModValue>,
}

/// One 特调 option.
#[derive(Debug, Clone)]
pub struct ModValue {
    pub code: String,
    pub price: Option<i64>,
    pub name: String,
    pub max_quantity: i64,
    pub min_quantity: i64,
    pub selected_quantity: i64,
    pub selected_key: String,
    pub unselected_key: Option<String>,
}

/// The 特调 values chosen for one product or choice, as order JSON.
#[derive(Debug)]
pub struct ModSelection {
    pub values: Vec<Json>,
}

/// A choice counts as preselected when it has a quantity or is marked default.
pub open spec fn preselected(c: Choice) -> bool {
    c.quantity > 0 || c.is_default == 1
}

/// Whether any choice of the list is preselected.
pub open spec fn any_preselected(choices: Seq<Choice>) -> bool {
    exists|i: int| 0 <= i < choices.len() && preselected(#[trigger] choices[i])
}

/// The index of the first preselected choice, 0 when there is none.
pub fn default_choice(round: &Round) -> (r: usize)
    ensures
        any_preselected(round.choices@) ==> r < round.choices@.len() && preselected(round.choices@[r as int])
            && forall|i: int| 0 <= i < r ==> !preselected(#[trigger] round.choices@[i]),
        !any_preselected(round.choices@) ==> r == 0,
{
    let mut i: usize = 0;
    while i < round.choices.len()
        invariant
            i <= round.choices@.len(),
            forall|k: int| 0 <= k < i ==> !preselected(#[trigger] round.choices@[k]),
        decreases round.choices@.len() - i,
    {
        let c = &round.choices[i];
        if c.quantity > 0 || c.is_default == 1 {
            assert(preselected(round.choices@[i as int]));
            return i;
        }
        i += 1;
    }
    0
}

/// The codes of a round's choices, joined with ", ".
pub open spec fn codes_text(round: Round) -> Seq<char> {
    join(Seq::new(round.choices@.len(), |i: int| round.choices@[i].code@), ", "@)
}

/// The codes of a round's choices, joined with ", " (shown in error messages).
pub fn valid_codes(round: &Round) -> (r: String)
    ensures
        r@ == codes_text(*round),
{
    let mut codes: Vec<String> = Vec::new();
    let mut i: usize = 0;
    while i < round.choices.len()
        invariant
            i <= round.choices@.len(),
            codes@.len() == i,
            forall|k: int| 0 <= k < i ==> #[trigger] codes@[k]@ == round.choices@[k].code@,
        decreases round.choices@.len() - i,
    {
        codes.push(round.choices[i].code.clone());
        i += 1;
    }
    let r = join_strings(&codes, ", ");
    assert(views(codes@) =~= Seq::new(round.choices@.len(), |i: int| round.choices@[i].code@));
    r
}

/// The listing line of a choice: number, name, price difference, and the
/// 【可特调】 and [默认] marks.
pub open spec fn choice_line_text(c: Choice, index: nat) -> Seq<char> {
    "  "@ + nat_text(index + 1) + ". "@ + c.name@ + " "@
        + (match c.diff_price { Some(p) => p@, None => Seq::empty() }) + " "@
        + (if c.support_modify { "【可特调】"@ } else { Seq::empty() }) + " "@
        + (if preselected(c) { "[默认]"@ } else { Seq::empty() })
}

pub fn choice_line(choice: &Choice, index: usize) -> (r: String)
    requires
        index < usize::MAX,
    ensures
        r@ == choice_line_text(*choice, index as nat),
{
    let mut s = String::new();
    s.append("  ");
    push_u64(&mut s, (index + 1) as u64);
    s.append(". ");
    s.append(choice.name.as_str());
    s.append(" ");
    match &choice.diff_price {
        Some(p) => s.append(p.as_str()),
        None => {},
    }
    s.append(" ");
    if choice.support_modify {
        s.append("【可特调】");
    }
    s.append(" ");
    if choice.is_default == 1 || choice.quantity > 0 {
        s.append("[默认]");
    }
    proof {
        assert(s@ =~= choice_line_text(*choice, index as nat));
    }
    s
}

} // verus!

verus! {

/// `{"values": vals}`.
pub open spec fn values_obj(vals: Seq<Json>) -> JVal {
    JVal::Obj(seq![("values"@, JVal::Arr(jvs(vals)))])
}

/// The 特调 selection for pick `pi` of round `ri`, if one was made.
pub open spec fn mod_at(mods: Seq<Vec<Option<ModSelection>>>, ri: int, pi: int) -> Option<ModSelection> {
    if 0 <= ri < mods.len() && 0 <= pi < mods[ri]@.len() {
        mods[ri]@[pi]
    } else {
        None
    }
}

/// A combo entry: the chosen item's code, quantity 1, and its 特调 values
/// when a nonempty selection was made for it.
pub open spec fn combo_val(c: Choice, sel: Option<ModSelection>) -> JVal {
    let base = seq![("code"@, JVal::Str(c.code@)), ("quantity"@, JVal::Int(1))];
    match sel {
        Some(s) => if s.values@.len() > 0 {
            JVal::Obj(base.push(("modification"@, values_obj(s.values@))))
        } else {
            JVal::Obj(base)
        },
        None => JVal::Obj(base),
    }
}

/// The combo entries of the first `k` picks of round `ri` (picks that name no
/// choice are left out).
pub open spec fn combos_upto(
    round: Round,
    rp: Seq<usize>,
    mods: Seq<Vec<Option<ModSelection>>>,
    ri: int,
    k: int,
) -> Seq<JVal>
    decreases k,
{
    if k <= 0 {
        Seq::empty()
    } else {
        let prev = combos_upto(round, rp, mods, ri, k - 1);
        let pick = rp[k - 1];
        if pick < round.choices@.len() {
            prev.push(combo_val(round.choices@[pick as int], mod_at(mods, ri, k - 1)))
        } else {
            prev
        }
    }
}

/// The `roundList` entry of round `ri`: absent when the round has no picks or
/// none of its picks names a choice.
pub open spec fn round_entry(
    d: MealDetail,
    picks: Seq<Vec<usize>>,
    mods: Seq<Vec<Option<ModSelection>>>,
    ri: int,
) -> Option<JVal> {
    if ri >= picks.len() || picks[ri]@.len() == 0 {
        None
    } else {
        let combos = combos_upto(d.rounds@[ri], picks[ri]@, mods, ri, picks[ri]@.len() as int);
        if combos.len() == 0 {
            None
        } else {
            Some(
                JVal::Obj(
                    seq![
                        ("round"@, JVal::Str(int_text(d.rounds@[ri].id as int))),
                        ("comboItemList"@, JVal::Arr(combos)),
                    ],
                ),
            )
        }
    }
}

/// The `roundList` entries of the first `k` rounds.
pub open spec fn round_list_upto(
    d: MealDetail,
    picks: Seq<Vec<usize>>,
    mods: Seq<Vec<Option<ModSelection>>>,
    k: int,
) -> Seq<JVal>
    decreases k,
{
    if k <= 0 {
        Seq::empty()
    } else {
        let prev = round_list_upto(d, picks, mods, k - 1);
        match round_entry(d, picks, mods, k - 1) {
            Some(e) => prev.push(e),
            None => prev,
        }
    }
}

/// The order item for a meal: its code and quantity; for a single product the
/// product's 特调 values when some were chosen; for a combo with picks, the
/// `roundList` of the chosen items.
pub open spec fn item_val(
    d: MealDetail,
    qty: nat,
    picks: Seq<Vec<usize>>,
    mods: Seq<Vec<Option<ModSelection>>>,
    product_mods: Option<ModSelection>,
) -> JVal {
    let base = seq![("productCode"@, JVal::Str(d.code@)), ("quantity"@, JVal::Int(qty as int))];
    if d.rounds@.len() == 0 {
        match product_mods {
            Some(s) => if s.values@.len() > 0 {
                JVal::Obj(base.push(("modification"@, values_obj(s.values@))))
            } else {
                JVal::Obj(base)
            },
            None => JVal::Obj(base),
        }
    } else if picks.len() > 0 {
        JVal::Obj(base.push(("roundList"@, JVal::Arr(round_list_upto(d, picks, mods, d.rounds@.len() as int)))))
    } else {
        JVal::Obj(base)
    }
}

/// Law: the order item of a single product (a meal without rounds) holds
/// its code and quantity, and, exactly when 特调 values were chosen for it,
/// a `modification` member whose `values` are the chosen values, in order;
/// it holds no `roundList`.
pub proof fn lemma_product_item_keeps_mods(
    d: MealDetail,
    qty: nat,
    picks: Seq<Vec<usize>>,
    mods: Seq<Vec<Option<ModSelection>>>,
    product_mods: Option<ModSelection>,
)
    requires
        d.rounds@.len() == 0,
    ensures
        ({
            let v = item_val(d, qty, picks, mods, product_mods);
            &&& v.get("productCode"@) == Some(JVal::Str(d.code@))
            &&& v.get("quantity"@) == Some(JVal::Int(qty as int))
            &&& v.get("modification"@) == match product_mods {
                Some(s) => if s.values@.len() > 0 {
                    Some(JVal::Obj(seq![("values"@, JVal::Arr(jvs(s.values@)))]))
                } else {
                    None
                },
                None => None,
            }
            &&& v.get("roundList"@) is None
        }),
{
    reveal_strlit("productCode");
    reveal_strlit("quantity");
    reveal_strlit("modification");
    reveal_strlit("roundList");
    assert("productCode"@.len() == 11 && "quantity"@.len() == 8 && "modification"@.len() == 12 && "roundList"@.len() == 9);
    let ext = product_entries(d, qty, product_mods);
    assert(item_val(d, qty, picks, mods, product_mods) == JVal::Obj(ext));
    lemma_product_lookup(d, qty, product_mods, "productCode"@);
    lemma_product_lookup(d, qty, product_mods, "quantity"@);
    lemma_product_lookup(d, qty, product_mods, "modification"@);
    lemma_product_lookup(d, qty, product_mods, "roundList"@);
}

/// The entries of a single product's order item.
spec fn product_entries(d: MealDetail, qty: nat, product_mods: Option<ModSelection>) -> Seq<(Seq<char>, JVal)> {
    let base = seq![("productCode"@, JVal::Str(d.code@)), ("quantity"@, JVal::Int(qty as int))];
    match product_mods {
        Some(s) => if s.values@.len() > 0 {
            base.push(("modification"@, values_obj(s.values@)))
        } else {
            base
        },
        None => base,
    }
}

proof fn lemma_product_lookup(d: MealDetail, qty: nat, product_mods: Option<ModSelection>, key: Seq<char>)
    ensures
        obj_lookup(product_entries(d, qty, product_mods), key) == if key == "productCode"@ {
            Some(JVal::Str(d.code@))
        } else if key == "quantity"@ {
            Some(JVal::Int(qty as int))
        } else if key == "modification"@ {
            match product_mods {
                Some(s) => if s.values@.len() > 0 {
                    Some(values_obj(s.values@))
                } else {
                    None
                },
                None => None,
            }
        } else {
            None
        },
{
    reveal_strlit("productCode");
    reveal_strlit("quantity");
    reveal_strlit("modification");
    assert("productCode"@.len() == 11 && "quantity"@.len() == 8 && "modification"@.len() == 12);
    let ext = product_entries(d, qty, product_mods);
    let e1 = ext.drop_first();
    let e2 = e1.drop_first();
    assert(ext[0] == ("productCode"@, JVal::Str(d.code@)));
    assert(ext[1] == ("quantity"@, JVal::Int(qty as int)));
    assert(e1[0] == ext[1]);
    assert(obj_lookup(ext, key) == if ext[0].0 == key { Some(ext[0].1) } else { obj_lookup(e1, key) });
    assert(obj_lookup(e1, key) == if e1[0].0 == key { Some(e1[0].1) } else { obj_lookup(e2, key) });
    match product_mods {
        Some(s) => if s.values@.len() > 0 {
            assert(ext.len() == 3);
            assert(ext[2] == ("modification"@, values_obj(s.values@)));
        } else {
            assert(ext.len() == 2);
        },
        None => {
            assert(ext.len() == 2);
        },
    }
    if ext.len() > 2 {
        assert(e2[0] == ext[2]);
        assert(e2.drop_first() =~= Seq::<(Seq<char>, JVal)>::empty());
        assert(obj_lookup(e2.drop_first(), key) is None);
    } else {
        assert(e2 =~= Seq::<(Seq<char>, JVal)>::empty());
        assert(obj_lookup(e2, key) is None);
    }
}

/// `{"values": [...]}` holding copies of `vals`.
fn values_json(vals: &Vec<Json>) -> (r: Json)
    ensures
        r@ == values_obj(vals@),
{
    let arr = clone_values(vals);
    let mut es: Vec<(String, Json)> = Vec::new();
    es.push(entry("values", Json::Array(arr)));
    proof {
        lemma_arr_view(arr);
        lemma_obj_view(es);
        assert(entries_view(es@) =~= seq![("values"@, JVal::Arr(jvs(vals@)))]);
    }
    Json::Object(es)
}

/// The combo entry for one pick.
fn combo_json(c: &Choice, sel: Option<&ModSelection>) -> (r: Json)
    ensures
        r@ == combo_val(*c, match sel { Some(s) => Some(*s), None => None }),
{
    let mut es: Vec<(String, Json)> = Vec::new();
    es.push(entry("code", Json::Str(c.code.clone())));
    es.push(entry("quantity", Json::Int(1)));
    let ghost base = entries_view(es@);
    match sel {
        Some(s) => {
            if s.values.len() > 0 {
                es.push(entry("modification", values_json(&s.values)));
            }
        },
        None => {},
    }
    proof {
        lemma_obj_view(es);
        assert(base =~= seq![("code"@, JVal::Str(c.code@)), ("quantity"@, JVal::Int(1))]);
        assert(entries_view(es@) =~= match combo_val(*c, match sel { Some(s) => Some(*s), None => None }) {
            JVal::Obj(e) => e,
            _ => Seq::empty(),
        });
    }
    Json::Object(es)
}

} // verus!

verus! {

/// The 特调 selection for pick `pi` of round `ri`.
fn selection_at(mods: &Vec<Vec<Option<ModSelection>>>, ri: usize, pi: usize) -> (r: Option<&ModSelection>)
    ensures
        match r { Some(s) => Some(*s), None => None } == mod_at(mods@, ri as int, pi as int),
{
    if ri < mods.len() && pi < mods[ri].len() {
        match &mods[ri][pi] {
            Some(s) => Some(s),
            None => None,
        }
    } else {
        None
    }
}

/// The combo entries of round `ri`.
fn combos_json(round: &Round, rp: &Vec<usize>, mods: &Vec<Vec<Option<ModSelection>>>, ri: usize) -> (r: Vec<Json>)
    ensures
        jvs(r@) == combos_upto(*round, rp@, mods@, ri as int, rp@.len() as int),
{
    let mut out: Vec<Json> = Vec::new();
    let mut k: usize = 0;
    while k < rp.len()
        invariant
            k <= rp@.len(),
            jvs(out@) == combos_upto(*round, rp@, mods@, ri as int, k as int),
        decreases rp@.len() - k,
    {
        let pick = rp[k];
        if pick < round.choices.len() {
            let c = combo_json(&round.choices[pick], selection_at(mods, ri, k));
            let ghost before = out@;
            out.push(c);
            assert(jvs(out@) =~= jvs(before).push(jv(c)));
        }
        k += 1;
    }
    out
}

/// Builds the order item for a meal (see [`item_val`]).
pub fn build_item_value(
    detail: &MealDetail,
    qty: u32,
    picks: &Vec<Vec<usize>>,
    mods: &Vec<Vec<Option<ModSelection>>>,
    product_mods: Option<ModSelection>,
) -> (r: Json)
    ensures
        r@ == item_val(*detail, qty as nat, picks@, mods@, product_mods),
{
    let mut es: Vec<(String, Json)> = Vec::new();
    es.push(entry("productCode", Json::Str(detail.code.clone())));
    es.push(entry("quantity", Json::Int(qty as i64)));
    let ghost base = entries_view(es@);
    assert(base =~= seq![("productCode"@, JVal::Str(detail.code@)), ("quantity"@, JVal::Int(qty as int))]);
    if detail.rounds.len() == 0 {
        match &product_mods {
            Some(sel) => {
                if sel.values.len() > 0 {
                    es.push(entry("modification", values_json(&sel.values)));
                }
            },
            None => {},
        }
    } else if picks.len() > 0 {
        let mut list: Vec<Json> = Vec::new();
        let mut ri: usize = 0;
        while ri < detail.rounds.len()
            invariant
                ri <= detail.rounds@.len(),
                jvs(list@) == round_list_upto(*detail, picks@, mods@, ri as int),
            decreases detail.rounds@.len() - ri,
        {
            if ri < picks.len() && picks[ri].len() > 0 {
                let round = &detail.rounds[ri];
                let combos = combos_json(round, &picks[ri], mods, ri);
                if combos.len() > 0 {
                    let mut e: Vec<(String, Json)> = Vec::new();
                    e.push(entry("round", Json::Str(crate::text::i64_text(round.id))));
                    e.push(entry("comboItemList", Json::Array(combos)));
                    proof {
                        lemma_arr_view(combos);
                        lemma_obj_view(e);
                        assert(entries_view(e@) =~= seq![
                            ("round"@, JVal::Str(int_text(round.id as int))),
                            ("comboItemList"@, JVal::Arr(jvs(combos@))),
                        ]);
                    }
                    let ej = Json::Object(e);
                    let ghost before = list@;
                    list.push(ej);
                    assert(jvs(list@) =~= jvs(before).push(jv(ej)));
                }
            }
            ri += 1;
        }
        proof {
            lemma_arr_view(list);
        }
        es.push(entry("roundList", Json::Array(list)));
    }
    proof {
        lemma_obj_view(es);
        assert(entries_view(es@) =~= match item_val(*detail, qty as nat, picks@, mods@, product_mods) {
            JVal::Obj(e) => e,
            _ => Seq::empty(),
        });
    }
    Json::Object(es)
}

} // verus!

verus! {

/// The values of all 特调 groups, group by group.
pub open spec fn flat_values(items: Seq<ModItem>) -> Seq<ModValue>
    decreases items.len(),
{
    if items.len() == 0 {
        Seq::empty()
    } else {
        flat_values(items.drop_last()) + items.last().values@
    }
}

/// Whether a 特调 value is among the chosen ones: some chosen entry names its
/// code with its selected key.
pub open spec fn is_chosen(v: ModValue, chosen: Seq<JVal>) -> bool {
    exists|i: int|
        0 <= i < chosen.len() && (#[trigger] chosen[i]).str_at("code"@) == Some(v.code@) && chosen[i].str_at(
            "key"@,
        ) == Some(v.selected_key@)
}

/// The names of the chosen values, in order.
pub open spec fn chosen_names(vals: Seq<ModValue>, chosen: Seq<JVal>) -> Seq<Seq<char>>
    decreases vals.len(),
{
    if vals.len() == 0 {
        Seq::empty()
    } else {
        let prev = chosen_names(vals.drop_last(), chosen);
        if is_chosen(vals.last(), chosen) {
            prev.push(vals.last().name@)
        } else {
            prev
        }
    }
}

/// The names of the 特调 values of `c` that `sel` chooses.
pub open spec fn selected_names(c: Choice, sel: ModSelection) -> Seq<Seq<char>> {
    match c.modification {
        Some(m) => chosen_names(flat_values(m.items@), jvs(sel.values@)),
        None => Seq::empty(),
    }
}

/// Whether `v` is chosen by one of `chosen`.
fn chosen_by(v: &ModValue, chosen: &Vec<Json>) -> (r: bool)
    ensures
        r == is_chosen(*v, jvs(chosen@)),
{
    let mut i: usize = 0;
    while i < chosen.len()
        invariant
            i <= chosen@.len(),
            forall|k: int|
                0 <= k < i ==> !((#[trigger] jvs(chosen@)[k]).str_at("code"@) == Some(v.code@) && jvs(
                    chosen@,
                )[k].str_at("key"@) == Some(v.selected_key@)),
        decreases chosen@.len() - i,
    {
        let c = &chosen[i];
        let code_ok = match c.get_str("code") {
            Some(s) => *s == v.code,
            None => false,
        };
        let key_ok = match c.get_str("key") {
            Some(s) => *s == v.selected_key,
            None => false,
        };
        assert(jvs(chosen@)[i as int] == c@);
        if code_ok && key_ok {
            return true;
        }
        i += 1;
    }
    false
}

/// The names of the chosen 特调 values of a group list.
pub fn chosen_value_names(m: &Modification, chosen: &Vec<Json>) -> (r: Vec<String>)
    ensures
        views(r@) == chosen_names(flat_values(m.items@), jvs(chosen@)),
{
    let mut names: Vec<String> = Vec::new();
    let mut i: usize = 0;
    assert(m.items@.take(0) =~= Seq::<ModItem>::empty());
    while i < m.items.len()
        invariant
            i <= m.items@.len(),
            views(names@) == chosen_names(flat_values(m.items@.take(i as int)), jvs(chosen@)),
        decreases m.items@.len() - i,
    {
        let item = &m.items[i];
        let ghost prefix = flat_values(m.items@.take(i as int));
        let mut j: usize = 0;
        assert(prefix + item.values@.take(0) =~= prefix);
        while j < item.values.len()
            invariant
                j <= item.values@.len(),
                views(names@) == chosen_names(prefix + item.values@.take(j as int), jvs(chosen@)),
            decreases item.values@.len() - j,
        {
            let ghost before = names@;
            let v = &item.values[j];
            assert((prefix + item.values@.take(j + 1)).drop_last() =~= prefix + item.values@.take(j as int));
            assert((prefix + item.values@.take(j + 1)).last() == item.values@[j as int]);
            if chosen_by(v, chosen) {
                names.push(v.name.clone());
                assert(views(names@) =~= views(before).push(v.name@));
            }
            j += 1;
        }
        assert(m.items@.take(i + 1).drop_last() =~= m.items@.take(i as int));
        assert(item.values@.take(item.values@.len() as int) =~= item.values@);
        i += 1;
    }
    assert(m.items@.take(m.items@.len() as int) =~= m.items@);
    names
}

/// The names of the 特调 values of `choice` that `selection` chooses.
pub fn selected_mod_names(choice: &Choice, selection: &ModSelection) -> (r: Vec<String>)
    ensures
        views(r@) == selected_names(*choice, *selection),
{
    match &choice.modification {
        Some(m) => chosen_value_names(m, &selection.values),
        None => {
            let r: Vec<String> = Vec::new();
            assert(views(r@) =~= Seq::<Seq<char>>::empty());
            r
        },
    }
}

} // verus!

verus! {

/// The summary text of one pick: the choice name, then the chosen 特调 names.
pub open spec fn pick_line(c: Choice, sel: Option<ModSelection>) -> Seq<char> {
    match sel {
        Some(s) => {
            let names = selected_names(c, s);
            if names.len() > 0 {
                c.name@ + " (特调: "@ + join(names, ", "@) + ")"@
            } else {
                c.name@
            }
        },
        None => c.name@,
    }
}

/// The summary texts of the first `k` picks of round `ri` (picks that name no
/// choice are left out).
pub open spec fn pick_lines_upto(
    round: Round,
    rp: Seq<usize>,
    mods: Seq<Vec<Option<ModSelection>>>,
    ri: int,
    k: int,
) -> Seq<Seq<char>>
    decreases k,
{
    if k <= 0 {
        Seq::empty()
    } else {
        let prev = pick_lines_upto(round, rp, mods, ri, k - 1);
        let pick = rp[k - 1];
        if pick < round.choices@.len() {
            prev.push(pick_line(round.choices@[pick as int], mod_at(mods, ri, k - 1)))
        } else {
            prev
        }
    }
}

/// The summary lines of the first `k` rounds: `  <round>: <pick> + <pick>` for
/// each round with picks that name choices.
pub open spec fn summary_lines_upto(
    d: MealDetail,
    picks: Seq<Vec<usize>>,
    mods: Seq<Vec<Option<ModSelection>>>,
    k: int,
) -> Seq<Seq<char>>
    decreases k,
{
    if k <= 0 {
        Seq::empty()
    } else {
        let prev = summary_lines_upto(d, picks, mods, k - 1);
        let ri = k - 1;
        if ri < picks.len() && picks[ri]@.len() > 0 {
            let names = pick_lines_upto(d.rounds@[ri], picks[ri]@, mods, ri, picks[ri]@.len() as int);
            if names.len() > 0 {
                prev.push("  "@ + d.rounds@[ri].name@ + ": "@ + join(names, " + "@))
            } else {
                prev
            }
        } else {
            prev
        }
    }
}

/// The selection summary: the round lines, or the meal name alone when there are none.
pub open spec fn summary_text(
    d: MealDetail,
    picks: Seq<Vec<usize>>,
    mods: Seq<Vec<Option<ModSelection>>>,
) -> Seq<char> {
    let lines = summary_lines_upto(d, picks, mods, d.rounds@.len() as int);
    if lines.len() == 0 {
        "  "@ + d.name@
    } else {
        join(lines, "\n"@)
    }
}

/// The summary text of one pick.
fn pick_line_text(c: &Choice, sel: Option<&ModSelection>) -> (r: String)
    ensures
        r@ == pick_line(*c, match sel { Some(s) => Some(*s), None => None }),
{
    let mut line = c.name.clone();
    match sel {
        Some(s) => {
            let names = selected_mod_names(c, s);
            if names.len() > 0 {
                line.append(" (特调: ");
                let joined = join_strings(&names, ", ");
                line.append(joined.as_str());
                line.append(")");
            }
        },
        None => {},
    }
    line
}

/// The selection summary of a meal (see [`summary_text`]).
pub fn render_selection_summary(
    detail: &MealDetail,
    picks: &Vec<Vec<usize>>,
    mods: &Vec<Vec<Option<ModSelection>>>,
) -> (r: String)
    ensures
        r@ == summary_text(*detail, picks@, mods@),
{
    let mut lines: Vec<String> = Vec::new();
    let mut ri: usize = 0;
    while ri < detail.rounds.len()
        invariant
            ri <= detail.rounds@.len(),
            views(lines@) == summary_lines_upto(*detail, picks@, mods@, ri as int),
        decreases detail.rounds@.len() - ri,
    {
        if ri < picks.len() && picks[ri].len() > 0 {
            let round = &detail.rounds[ri];
            let rp = &picks[ri];
            let mut names: Vec<String> = Vec::new();
            let mut k: usize = 0;
            while k < rp.len()
                invariant
                    k <= rp@.len(),
                    views(names@) == pick_lines_upto(*round, rp@, mods@, ri as int, k as int),
                decreases rp@.len() - k,
            {
                let pick = rp[k];
                if pick < round.choices.len() {
                    let line = pick_line_text(&round.choices[pick], selection_at(mods, ri, k));
                    let ghost before = names@;
                    names.push(line);
                    assert(views(names@) =~= views(before).push(line@));
                }
                k += 1;
            }
            if names.len() > 0 {
                let mut line = String::new();
                line.append("  ");
                line.append(round.name.as_str());
                line.append(": ");
                let joined = join_strings(&names, " + ");
                line.append(joined.as_str());
                let ghost before = lines@;
                lines.push(line);
                assert(views(lines@) =~= views(before).push(line@));
                assert(line@ =~= "  "@ + round.name@ + ": "@ + join(views(names@), " + "@));
            }
        }
        ri += 1;
    }
    if lines.len() == 0 {
        let mut s = String::new();
        s.append("  ");
        s.append(detail.name.as_str());
        return s;
    }
    join_strings(&lines, "\n")
}


/// The summary text of pick `k` of round `ri`: the picked choice's name, with
/// the names of its chosen 特调 values in brackets where there are any.
pub open spec fn summary_part(round: Round, rp: Seq<usize>, mods: Seq<Vec<Option<ModSelection>>>, ri: int, k: int) -> Seq<char> {
    let c = round.choices@[rp[k] as int];
    match mod_at(mods, ri, k) {
        Some(s) => if selected_names(c, s).len() > 0 {
            c.name@ + " (特调: "@ + join(selected_names(c, s), ", "@) + ")"@
        } else {
            c.name@
        },
        None => c.name@,
    }
}

/// The picks of every round name choices of that round, and every round has
/// at least one.
pub open spec fn picks_cover_rounds(d: MealDetail, picks: Seq<Vec<usize>>) -> bool {
    &&& picks.len() == d.rounds@.len()
    &&& forall|ri: int| 0 <= ri < picks.len() ==> (#[trigger] picks[ri])@.len() > 0
    &&& forall|ri: int, k: int|
        0 <= ri < picks.len() && 0 <= k < picks[ri]@.len() ==> (#[trigger] picks[ri]@[k]) < d.rounds@[ri].choices@.len()
}

proof fn lemma_pick_lines_all(round: Round, rp: Seq<usize>, mods: Seq<Vec<Option<ModSelection>>>, ri: int, k: int)
    requires
        0 <= k <= rp.len(),
        forall|j: int| 0 <= j < rp.len() ==> #[trigger] rp[j] < round.choices@.len(),
    ensures
        pick_lines_upto(round, rp, mods, ri, k) == Seq::new(k as nat, |j: int| summary_part(round, rp, mods, ri, j)),
    decreases k,
{
    if k > 0 {
        lemma_pick_lines_all(round, rp, mods, ri, k - 1);
        assert(rp[k - 1] < round.choices@.len());
        assert(Seq::new((k - 1) as nat, |j: int| summary_part(round, rp, mods, ri, j)).push(
            summary_part(round, rp, mods, ri, k - 1),
        ) =~= Seq::new(k as nat, |j: int| summary_part(round, rp, mods, ri, j)));
    } else {
        assert(Seq::new(0, |j: int| summary_part(round, rp, mods, ri, j)) =~= Seq::<Seq<char>>::empty());
    }
}

/// The summary line of round `ri`.
pub open spec fn summary_round_line(d: MealDetail, picks: Seq<Vec<usize>>, mods: Seq<Vec<Option<ModSelection>>>, ri: int) -> Seq<char> {
    "  "@ + d.rounds@[ri].name@ + ": "@ + join(
        Seq::new(picks[ri]@.len(), |k: int| summary_part(d.rounds@[ri], picks[ri]@, mods, ri, k)),
        " + "@,
    )
}

proof fn lemma_summary_lines_all(d: MealDetail, picks: Seq<Vec<usize>>, mods: Seq<Vec<Option<ModSelection>>>, k: int)
    requires
        picks_cover_rounds(d, picks),
        0 <= k <= d.rounds@.len(),
    ensures
        summary_lines_upto(d, picks, mods, k) == Seq::new(k as nat, |ri: int| summary_round_line(d, picks, mods, ri)),
    decreases k,
{
    if k > 0 {
        lemma_summary_lines_all(d, picks, mods, k - 1);
        let ri = k - 1;
        assert(picks[ri]@.len() > 0);
        assert forall|j: int| 0 <= j < picks[ri]@.len() implies #[trigger] picks[ri]@[j] < d.rounds@[ri].choices@.len() by {
            assert(picks[ri]@[j] < d.rounds@[ri].choices@.len());
        }
        lemma_pick_lines_all(d.rounds@[ri], picks[ri]@, mods, ri, picks[ri]@.len() as int);
        assert(Seq::new((k - 1) as nat, |r: int| summary_round_line(d, picks, mods, r)).push(
            summary_round_line(d, picks, mods, ri),
        ) =~= Seq::new(k as nat, |r: int| summary_round_line(d, picks, mods, r)));
    } else {
        assert(Seq::new(0, |r: int| summary_round_line(d, picks, mods, r)) =~= Seq::<Seq<char>>::empty());
    }
}

/// Law: the selection summary of a combo whose every round has picks is one
/// line per round, in round order, joined with line breaks; the line of a
/// round is two spaces, the round's name, `: ` and every picked choice of
/// that round in pick order, joined with ` + `, each choice by its name,
/// followed in brackets by the names of its chosen 特调 values where there
/// are any.
pub proof fn lemma_summary_lists_every_pick(d: MealDetail, picks: Seq<Vec<usize>>, mods: Seq<Vec<Option<ModSelection>>>)
    requires
        picks_cover_rounds(d, picks),
        d.rounds@.len() > 0,
    ensures
        summary_text(d, picks, mods) == join(
            Seq::new(
                d.rounds@.len(),
                |ri: int| "  "@ + d.rounds@[ri].name@ + ": "@ + join(
                    Seq::new(picks[ri]@.len(), |k: int| summary_part(d.rounds@[ri], picks[ri]@, mods, ri, k)),
                    " + "@,
                ),
            ),
            "\n"@,
        ),
{
    lemma_summary_lines_all(d, picks, mods, d.rounds@.len() as int);
    let lines = Seq::new(d.rounds@.len(), |ri: int| summary_round_line(d, picks, mods, ri));
    assert(summary_lines_upto(d, picks, mods, d.rounds@.len() as int).len() > 0);
    assert(lines =~= Seq::new(
        d.rounds@.len(),
        |ri: int| "  "@ + d.rounds@[ri].name@ + ": "@ + join(
            Seq::new(picks[ri]@.len(), |k: int| summary_part(d.rounds@[ri], picks[ri]@, mods, ri, k)),
            " + "@,
        ),
    ));
}


/// Law: the 特调 names of a pick are the names of the choice's 特调 values, in
/// the order of its groups and values, that some chosen entry names by code
/// with the value's selected key; a choice without 特调 has none.
pub proof fn lemma_selected_names_are_chosen(c: Choice, sel: ModSelection)
    ensures
        selected_names(c, sel) == match c.modification {
            Some(m) => flat_values(m.items@).filter(
                |v: ModValue|
                    exists|i: int|
                        0 <= i < sel.values@.len() && (#[trigger] jvs(sel.values@)[i]).str_at("code"@) == Some(v.code@)
                            && jvs(sel.values@)[i].str_at("key"@) == Some(v.selected_key@),
            ).map_values(|v: ModValue| v.name@),
            None => Seq::empty(),
        },
{
    match c.modification {
        Some(m) => lemma_chosen_names_filter(flat_values(m.items@), jvs(sel.values@)),
        None => {},
    }
}

proof fn lemma_chosen_names_filter(vals: Seq<ModValue>, chosen: Seq<JVal>)
    ensures
        chosen_names(vals, chosen) == vals.filter(
            |v: ModValue|
                exists|i: int|
                    0 <= i < chosen.len() && (#[trigger] chosen[i]).str_at("code"@) == Some(v.code@) && chosen[i].str_at(
                        "key"@,
                    ) == Some(v.selected_key@),
        ).map_values(|v: ModValue| v.name@),
    decreases vals.len(),
{
    let pred = |v: ModValue|
        exists|i: int|
            0 <= i < chosen.len() && (#[trigger] chosen[i]).str_at("code"@) == Some(v.code@) && chosen[i].str_at(
                "key"@,
            ) == Some(v.selected_key@);
    reveal(Seq::filter);
    if vals.len() == 0 {
        assert(vals.filter(pred).map_values(|v: ModValue| v.name@) =~= Seq::<Seq<char>>::empty());
    } else {
        lemma_chosen_names_filter(vals.drop_last(), chosen);
        let sub = vals.drop_last().filter(pred);
        assert(is_chosen(vals.last(), chosen) == pred(vals.last()));
        if pred(vals.last()) {
            assert(vals.filter(pred) == sub.push(vals.last()));
            assert(sub.push(vals.last()).map_values(|v: ModValue| v.name@) =~= sub.map_values(|v: ModValue| v.name@).push(
                vals.last().name@,
            ));
        } else {
            assert(vals.filter(pred) == sub);
        }
    }
}

} // verus!
