//! The non-interactive selection spec `--pick "1=1600,2=3050"`: for each
//! round, by its number, the codes of the chosen items.
use vstd::prelude::*;
use crate::meal::{
    MealDetail, Round, Choice, ModSelection, codes_text, valid_codes, combo_val, combos_upto, mod_at, round_list_upto,
    round_entry, item_val,
};
use crate::text::{
    split_trimmed, split_trimmed_bounds, bounds_hold, index_of, trim, find_char, trim_bounds,
    sub_chars, chars_of, parse_usize, parse_usize_spec, push_char, string_of, string_of_all,
    usize_text, nat_text, int_text, split_on, is_ws, lemma_trim_keeps, lemma_nonempty_trimmed_all, lemma_index_of,
};
use crate::json::{JVal, jvs, obj_lookup};

verus! {

/// Why a selection spec was refused (round number, round name and the
/// round's valid codes where a round is concerned).
pub enum PickErr {
    BadSpec(Seq<char>),
    BadRound(Seq<char>),
    NoCodes(nat, Seq<char>, Seq<char>),
    BadCount(nat, Seq<char>, Seq<char>),
    Repeated(nat, Seq<char>, Seq<char>),
    UnknownCode(nat, Seq<char>, Seq<char>, Seq<char>),
    DuplicateCode(nat, Seq<char>, Seq<char>, Seq<char>),
    Missing(nat, Seq<char>, Seq<char>),
}

/// Why a selection spec was refused.
#[derive(Debug, Clone)]
pub enum PickError {
    /// A part with no `=` before any assignment.
    BadSpec { part: String },
    /// A round number that is not a number or names no round.
    BadRound { text: String },
    /// A round given no codes.
    NoCodes { round: usize, name: String, valid: String },
    /// A round given fewer or more codes than it allows.
    BadCount { round: usize, name: String, valid: String },
    /// A round assigned twice.
    Repeated { round: usize, name: String, valid: String },
    /// A code that no choice of the round has.
    UnknownCode { round: usize, name: String, valid: String, code: String },
    /// A code named twice for one round.
    DuplicateCode { round: usize, name: String, valid: String, code: String },
    /// A round left without an assignment.
    Missing { round: usize, name: String, valid: String },
}

impl View for PickError {
    type V = PickErr;

    open spec fn view(&self) -> PickErr {
        match self {
            PickError::BadSpec { part } => PickErr::BadSpec(part@),
            PickError::BadRound { text } => PickErr::BadRound(text@),
            PickError::NoCodes { round, name, valid } => PickErr::NoCodes(*round as nat, name@, valid@),
            PickError::BadCount { round, name, valid } => PickErr::BadCount(*round as nat, name@, valid@),
            PickError::Repeated { round, name, valid } => PickErr::Repeated(*round as nat, name@, valid@),
            PickError::UnknownCode { round, name, valid, code } => PickErr::UnknownCode(
                *round as nat,
                name@,
                valid@,
                code@,
            ),
            PickError::DuplicateCode { round, name, valid, code } => PickErr::DuplicateCode(
                *round as nat,
                name@,
                valid@,
                code@,
            ),
            PickError::Missing { round, name, valid } => PickErr::Missing(*round as nat, name@, valid@),
        }
    }
}

/// The error text shown for a refused selection spec.
pub open spec fn pick_err_text(e: PickErr) -> Seq<char> {
    match e {
        PickErr::BadSpec(p) => "选择规格无效: "@ + p,
        PickErr::BadRound(t) => "轮次编号无效: "@ + t,
        PickErr::NoCodes(n, name, valid) => "轮次"@ + nat_text(n) + "【"@ + name + "】未选择商品，有效编码: "@ + valid,
        PickErr::BadCount(n, name, valid) => "轮次"@ + nat_text(n) + "【"@ + name + "】选择数量无效，有效编码: "@ + valid,
        PickErr::Repeated(n, name, valid) => "轮次"@ + nat_text(n) + "【"@ + name + "】重复指定，有效编码: "@ + valid,
        PickErr::UnknownCode(n, name, valid, code) => "轮次"@ + nat_text(n) + "【"@ + name + "】无效编码 "@ + code
            + "，有效编码: "@ + valid,
        PickErr::DuplicateCode(n, name, valid, code) => "轮次"@ + nat_text(n) + "【"@ + name + "】重复编码 "@ + code
            + "，有效编码: "@ + valid,
        PickErr::Missing(n, name, valid) => "轮次"@ + nat_text(n) + "【"@ + name + "】缺少选择，有效编码: "@ + valid,
    }
}

impl PickError {
    /// The error text (see [`pick_err_text`]).
    pub fn message(&self) -> (r: String)
        ensures
            r@ == pick_err_text(self@),
    {
        let mut s = String::new();
        match self {
            PickError::BadSpec { part } => {
                s.append("选择规格无效: ");
                s.append(part.as_str());
            },
            PickError::BadRound { text } => {
                s.append("轮次编号无效: ");
                s.append(text.as_str());
            },
            PickError::NoCodes { round, name, valid } => {
                round_prefix(&mut s, *round, name);
                s.append("】未选择商品，有效编码: ");
                s.append(valid.as_str());
            },
            PickError::BadCount { round, name, valid } => {
                round_prefix(&mut s, *round, name);
                s.append("】选择数量无效，有效编码: ");
                s.append(valid.as_str());
            },
            PickError::Repeated { round, name, valid } => {
                round_prefix(&mut s, *round, name);
                s.append("】重复指定，有效编码: ");
                s.append(valid.as_str());
            },
            PickError::UnknownCode { round, name, valid, code } => {
                round_prefix(&mut s, *round, name);
                s.append("】无效编码 ");
                s.append(code.as_str());
                s.append("，有效编码: ");
                s.append(valid.as_str());
            },
            PickError::DuplicateCode { round, name, valid, code } => {
                round_prefix(&mut s, *round, name);
                s.append("】重复编码 ");
                s.append(code.as_str());
                s.append("，有效编码: ");
                s.append(valid.as_str());
            },
            PickError::Missing { round, name, valid } => {
                round_prefix(&mut s, *round, name);
                s.append("】缺少选择，有效编码: ");
                s.append(valid.as_str());
            },
        }
        proof {
            assert(s@ =~= pick_err_text(self@));
        }
        s
    }
}

/// Appends `轮次<n>【<name>`.
fn round_prefix(s: &mut String, round: usize, name: &String)
    ensures
        final(s)@ == old(s)@ + "轮次"@ + nat_text(round as nat) + "【"@ + name@,
{
    s.append("轮次");
    crate::text::push_u64(s, round as u64);
    s.append("【");
    s.append(name.as_str());
    assert(final(s)@ =~= old(s)@ + "轮次"@ + nat_text(round as nat) + "【"@ + name@);
}

/// The assignments `(round text, codes text)` of the parts of a spec: a part
/// with `=` starts an assignment; a part without continues the last one, its
/// codes joined with `|`; a part without `=` before any assignment is refused.
pub open spec fn assign_parts(parts: Seq<Seq<char>>) -> Result<Seq<(Seq<char>, Seq<char>)>, PickErr>
    decreases parts.len(),
{
    if parts.len() == 0 {
        Ok(Seq::empty())
    } else {
        match assign_parts(parts.drop_last()) {
            Err(e) => Err(e),
            Ok(acc) => {
                let part = parts.last();
                match index_of(part, '=') {
                    Some(i) => Ok(acc.push((trim(part.take(i)), trim(part.skip(i + 1))))),
                    None => if acc.len() > 0 {
                        let last = acc.last();
                        Ok(
                            acc.update(
                                acc.len() - 1,
                                (last.0, if last.1.len() == 0 { part } else { last.1 + seq!['|'] + part }),
                            ),
                        )
                    } else {
                        Err(PickErr::BadSpec(part))
                    },
                }
            },
        }
    }
}

/// The first choice of a list with the given code.
pub open spec fn code_index(cs: Seq<Choice>, code: Seq<char>) -> Option<int>
    decreases cs.len(),
{
    if cs.len() == 0 {
        None
    } else if cs[0].code@ == code {
        Some(0)
    } else {
        match code_index(cs.drop_first(), code) {
            Some(i) => Some(i + 1),
            None => None,
        }
    }
}

/// The choice indices of the first `k` codes of round number `num`.
pub open spec fn resolve_codes(round: Round, codes: Seq<Seq<char>>, num: nat, k: int) -> Result<Seq<usize>, PickErr>
    decreases k,
{
    if k <= 0 {
        Ok(Seq::empty())
    } else {
        match resolve_codes(round, codes, num, k - 1) {
            Err(e) => Err(e),
            Ok(found) => match code_index(round.choices@, codes[k - 1]) {
                None => Err(PickErr::UnknownCode(num, round.name@, codes_text(round), codes[k - 1])),
                Some(i) => if found.contains(i as usize) {
                    Err(PickErr::DuplicateCode(num, round.name@, codes_text(round), codes[k - 1]))
                } else {
                    Ok(found.push(i as usize))
                },
            },
        }
    }
}

/// Applies one assignment to the picks and the rounds seen so far.
pub open spec fn apply_assignment(
    d: MealDetail,
    a: (Seq<char>, Seq<char>),
    st: (Seq<Seq<usize>>, Seq<bool>),
) -> Result<(Seq<Seq<usize>>, Seq<bool>), PickErr> {
    let n = d.rounds@.len();
    match parse_usize_spec(a.0) {
        None => Err(PickErr::BadRound(a.0)),
        Some(num) => if num < 1 || num - 1 >= n {
            Err(PickErr::BadRound(a.0))
        } else {
            let idx = num - 1;
            let round = d.rounds@[idx];
            let codes = split_trimmed(a.1, '|');
            if codes.len() == 0 {
                Err(PickErr::NoCodes(num, round.name@, codes_text(round)))
            } else if codes.len() < round.min_quantity || codes.len() > round.max_quantity {
                Err(PickErr::BadCount(num, round.name@, codes_text(round)))
            } else if st.1[idx] {
                Err(PickErr::Repeated(num, round.name@, codes_text(round)))
            } else {
                match resolve_codes(round, codes, num, codes.len() as int) {
                    Err(e) => Err(e),
                    Ok(found) => Ok((st.0.update(idx, found), st.1.update(idx, true))),
                }
            }
        },
    }
}

/// The picks and rounds seen after the first `k` assignments.
pub open spec fn apply_all(d: MealDetail, assigns: Seq<(Seq<char>, Seq<char>)>, k: int) -> Result<
    (Seq<Seq<usize>>, Seq<bool>),
    PickErr,
>
    decreases k,
{
    if k <= 0 {
        Ok(
            (
                Seq::new(d.rounds@.len(), |i: int| Seq::<usize>::empty()),
                Seq::new(d.rounds@.len(), |i: int| false),
            ),
        )
    } else {
        match apply_all(d, assigns, k - 1) {
            Err(e) => Err(e),
            Ok(st) => apply_assignment(d, assigns[k - 1], st),
        }
    }
}

/// The first round not yet seen.
pub open spec fn first_unseen(seen: Seq<bool>) -> Option<int>
    decreases seen.len(),
{
    if seen.len() == 0 {
        None
    } else if !seen[0] {
        Some(0)
    } else {
        match first_unseen(seen.drop_first()) {
            Some(i) => Some(i + 1),
            None => None,
        }
    }
}

/// What a selection spec yields for a meal: for each round, the indices of the
/// chosen items, or the first error met.
pub open spec fn pick_result(d: MealDetail, spec: Seq<char>) -> Result<Seq<Seq<usize>>, PickErr> {
    match assign_parts(split_trimmed(spec, ',')) {
        Err(e) => Err(e),
        Ok(assigns) => match apply_all(d, assigns, assigns.len() as int) {
            Err(e) => Err(e),
            Ok(st) => match first_unseen(st.1) {
                Some(i) => Err(PickErr::Missing((i + 1) as nat, d.rounds@[i].name@, codes_text(d.rounds@[i]))),
                None => Ok(st.0),
            },
        },
    }
}

/// The views of nested index lists.
pub open spec fn pick_views(p: Seq<Vec<usize>>) -> Seq<Seq<usize>> {
    Seq::new(p.len(), |i: int| p[i]@)
}

/// The views of assignment pairs.
pub open spec fn assign_views(a: Seq<(Vec<char>, Vec<char>)>) -> Seq<(Seq<char>, Seq<char>)> {
    Seq::new(a.len(), |i: int| (a[i].0@, a[i].1@))
}

} // verus!

verus! {

proof fn lemma_assign_err(parts: Seq<Seq<char>>, k: int)
    requires
        0 <= k <= parts.len(),
        assign_parts(parts.take(k)) is Err,
    ensures
        assign_parts(parts) == assign_parts(parts.take(k)),
    decreases parts.len() - k,
{
    if k < parts.len() {
        assert(parts.take(k + 1).drop_last() =~= parts.take(k));
        lemma_assign_err(parts, k + 1);
    } else {
        assert(parts.take(k) =~= parts);
    }
}

proof fn lemma_resolve_err(round: Round, codes: Seq<Seq<char>>, num: nat, k: int, m: int)
    requires
        0 <= k <= m,
        resolve_codes(round, codes, num, k) is Err,
    ensures
        resolve_codes(round, codes, num, m) == resolve_codes(round, codes, num, k),
    decreases m - k,
{
    if k < m {
        lemma_resolve_err(round, codes, num, k, m - 1);
    }
}

/// Appends `cs[lo..hi]` to `v`.
fn extend_chars(v: &mut Vec<char>, cs: &Vec<char>, lo: usize, hi: usize)
    requires
        lo <= hi <= cs@.len(),
    ensures
        final(v)@ == old(v)@ + cs@.subrange(lo as int, hi as int),
{
    let mut i = lo;
    while i < hi
        invariant
            lo <= i <= hi <= cs@.len(),
            v@ == old(v)@ + cs@.subrange(lo as int, i as int),
        decreases hi - i,
    {
        v.push(cs[i]);
        assert(old(v)@ + cs@.subrange(lo as int, i + 1) =~= (old(v)@ + cs@.subrange(lo as int, i as int)).push(cs@[i as int]));
        i += 1;
    }
}

/// The assignments of a spec (see [`assign_parts`]).
fn assignments(cs: &Vec<char>) -> (r: Result<Vec<(Vec<char>, Vec<char>)>, PickError>)
    ensures
        match r {
            Ok(a) => assign_parts(split_trimmed(cs@, ',')) == Ok::<_, PickErr>(assign_views(a@)),
            Err(e) => assign_parts(split_trimmed(cs@, ',')) == Err::<Seq<(Seq<char>, Seq<char>)>, _>(e@),
        },
{
    let parts = split_trimmed_bounds(cs, ',');
    let ghost all = split_trimmed(cs@, ',');
    let mut acc: Vec<(Vec<char>, Vec<char>)> = Vec::new();
    let mut k: usize = 0;
    assert(all.take(0) =~= Seq::<Seq<char>>::empty());
    assert(assign_views(acc@) =~= Seq::<(Seq<char>, Seq<char>)>::empty());
    while k < parts.len()
        invariant
            k <= parts@.len(),
            parts@.len() == all.len(),
            all == split_trimmed(cs@, ','),
            forall|j: int| 0 <= j < parts@.len() ==> bounds_hold(cs@, #[trigger] parts@[j], all[j]),
            assign_parts(all.take(k as int)) == Ok::<_, PickErr>(assign_views(acc@)),
        decreases parts@.len() - k,
    {
        let (lo, hi) = parts[k];
        assert(bounds_hold(cs@, parts@[k as int], all[k as int]));
        let ghost part = all[k as int];
        let ghost before = assign_views(acc@);
        assert(all.take(k + 1).drop_last() =~= all.take(k as int));
        assert(all.take(k + 1).last() == part);
        match find_char(cs, lo, hi, '=') {
            Some(e) => {
                let (a, b) = trim_bounds(cs, lo, e);
                let (c, d) = trim_bounds(cs, e + 1, hi);
                assert(part.take(e - lo) =~= cs@.subrange(lo as int, e as int));
                assert(part.skip(e - lo + 1) =~= cs@.subrange(e + 1, hi as int));
                let rt = sub_chars(cs, a, b);
                let ct = sub_chars(cs, c, d);
                acc.push((rt, ct));
                assert(assign_views(acc@) =~= before.push((rt@, ct@)));
            },
            None => {
                if acc.len() == 0 {
                    let p = string_of(cs, lo, hi);
                    proof {
                        lemma_assign_err(all, k + 1);
                    }
                    return Err(PickError::BadSpec { part: p });
                }
                let (rt, mut ct) = acc.pop().unwrap();
                let ghost old_ct = ct@;
                if ct.len() > 0 {
                    ct.push('|');
                }
                extend_chars(&mut ct, cs, lo, hi);
                assert(ct@ =~= if old_ct.len() == 0 { part } else { old_ct + seq!['|'] + part });
                acc.push((rt, ct));
                assert(assign_views(acc@) =~= before.update(before.len() - 1, (before.last().0, ct@)));
            },
        }
        k += 1;
    }
    assert(all.take(parts@.len() as int) =~= all);
    Ok(acc)
}

/// The index of the first choice with code `code`.
fn find_code(round: &Round, code: &String) -> (r: Option<usize>)
    ensures
        match r {
            Some(i) => code_index(round.choices@, code@) == Some(i as int) && i < round.choices@.len(),
            None => code_index(round.choices@, code@) is None,
        },
{
    let mut i: usize = 0;
    assert(round.choices@.skip(0) =~= round.choices@);
    while i < round.choices.len()
        invariant
            i <= round.choices@.len(),
            code_index(round.choices@, code@) == match code_index(round.choices@.skip(i as int), code@) {
                Some(j) => Some(j + i),
                None => None,
            },
        decreases round.choices@.len() - i,
    {
        assert(round.choices@.skip(i as int).drop_first() =~= round.choices@.skip(i + 1));
        assert(round.choices@.skip(i as int)[0] == round.choices@[i as int]);
        if round.choices[i].code == *code {
            return Some(i);
        }
        i += 1;
    }
    None
}

/// Whether `v` holds `x`.
fn contains_index(v: &Vec<usize>, x: usize) -> (r: bool)
    ensures
        r == v@.contains(x),
{
    let mut i: usize = 0;
    while i < v.len()
        invariant
            i <= v@.len(),
            forall|k: int| 0 <= k < i ==> v@[k] != x,
        decreases v@.len() - i,
    {
        if v[i] == x {
            return true;
        }
        i += 1;
    }
    false
}

/// The choice indices of a round's codes (see [`resolve_codes`]).
fn resolve(
    round: &Round,
    cs: &Vec<char>,
    bounds: &Vec<(usize, usize)>,
    codes: Ghost<Seq<Seq<char>>>,
    num: usize,
) -> (r: Result<Vec<usize>, PickError>)
    requires
        bounds@.len() == codes@.len(),
        forall|j: int| 0 <= j < bounds@.len() ==> bounds_hold(cs@, #[trigger] bounds@[j], codes@[j]),
    ensures
        match r {
            Ok(f) => resolve_codes(*round, codes@, num as nat, codes@.len() as int) == Ok::<_, PickErr>(f@),
            Err(e) => resolve_codes(*round, codes@, num as nat, codes@.len() as int) == Err::<Seq<usize>, _>(e@),
        },
{
    let mut found: Vec<usize> = Vec::new();
    let mut k: usize = 0;
    while k < bounds.len()
        invariant
            k <= bounds@.len(),
            bounds@.len() == codes@.len(),
            forall|j: int| 0 <= j < bounds@.len() ==> bounds_hold(cs@, #[trigger] bounds@[j], codes@[j]),
            resolve_codes(*round, codes@, num as nat, k as int) == Ok::<_, PickErr>(found@),
        decreases bounds@.len() - k,
    {
        let (lo, hi) = bounds[k];
        assert(bounds_hold(cs@, bounds@[k as int], codes@[k as int]));
        let code = string_of(cs, lo, hi);
        match find_code(round, &code) {
            None => {
                proof {
                    lemma_resolve_err(*round, codes@, num as nat, k + 1, codes@.len() as int);
                }
                return Err(PickError::UnknownCode { round: num, name: round.name.clone(), valid: valid_codes(round), code });
            },
            Some(i) => {
                if contains_index(&found, i) {
                    proof {
                        lemma_resolve_err(*round, codes@, num as nat, k + 1, codes@.len() as int);
                    }
                    return Err(PickError::DuplicateCode { round: num, name: round.name.clone(), valid: valid_codes(round), code });
                }
                found.push(i);
            },
        }
        k += 1;
    }
    Ok(found)
}

} // verus!

verus! {

proof fn lemma_apply_err(d: MealDetail, assigns: Seq<(Seq<char>, Seq<char>)>, k: int, m: int)
    requires
        0 <= k <= m,
        apply_all(d, assigns, k) is Err,
    ensures
        apply_all(d, assigns, m) == apply_all(d, assigns, k),
    decreases m - k,
{
    if k < m {
        lemma_apply_err(d, assigns, k, m - 1);
    }
}

/// Whether `len` lies outside `[min, max]`.
fn count_outside(len: usize, min: i64, max: i64) -> (r: bool)
    ensures
        r == (len < min || len > max),
{
    let below = min > 0 && (len as u64) < (min as u64);
    let above = max < 0 || (len as u64) > (max as u64);
    below || above
}

/// Parses a selection spec for a meal: `<round>=<code>[|<code>...]` parts
/// separated by commas, rounds numbered from 1 (see [`pick_result`]).
pub fn parse_pick_spec(detail: &MealDetail, spec: &str) -> (r: Result<Vec<Vec<usize>>, PickError>)
    ensures
        match r {
            Ok(p) => pick_result(*detail, spec@) == Ok::<_, PickErr>(pick_views(p@)),
            Err(e) => pick_result(*detail, spec@) == Err::<Seq<Seq<usize>>, _>(e@),
        },
{
    let cs = chars_of(spec);
    let assigns = match assignments(&cs) {
        Ok(a) => a,
        Err(e) => return Err(e),
    };
    let ghost av = assign_views(assigns@);
    let n = detail.rounds.len();
    let mut picks: Vec<Vec<usize>> = Vec::new();
    let mut seen: Vec<bool> = Vec::new();
    let mut i: usize = 0;
    while i < n
        invariant
            i <= n == detail.rounds@.len(),
            picks@.len() == i,
            seen@.len() == i,
            forall|j: int| 0 <= j < i ==> (#[trigger] picks@[j])@ == Seq::<usize>::empty(),
            forall|j: int| 0 <= j < i ==> !#[trigger] seen@[j],
        decreases n - i,
    {
        picks.push(Vec::new());
        seen.push(false);
        i += 1;
    }
    assert(pick_views(picks@) =~= Seq::new(detail.rounds@.len(), |i: int| Seq::<usize>::empty()));
    assert(seen@ =~= Seq::new(detail.rounds@.len(), |i: int| false));
    let mut k: usize = 0;
    while k < assigns.len()
        invariant
            k <= assigns@.len(),
            n == detail.rounds@.len(),
            av == assign_views(assigns@),
            assign_parts(split_trimmed(spec@, ',')) == Ok::<_, PickErr>(av),
            apply_all(*detail, av, k as int) == Ok::<_, PickErr>((pick_views(picks@), seen@)),
            picks@.len() == n,
            seen@.len() == n,
        decreases assigns@.len() - k,
    {
        let rt = &assigns[k].0;
        let ct = &assigns[k].1;
        assert(av[k as int] == (rt@, ct@));
        assert(rt@.subrange(0, rt@.len() as int) =~= rt@);
        let num = match parse_usize(rt, 0, rt.len()) {
            Some(v) => v,
            None => {
                proof {
                    assert(apply_all(*detail, av, k + 1) == apply_assignment(*detail, av[k as int], (pick_views(picks@), seen@)));
                    assert(apply_all(*detail, av, k + 1) == Err::<(Seq<Seq<usize>>, Seq<bool>), _>(PickErr::BadRound(rt@)));
                    lemma_apply_err(*detail, av, k + 1, av.len() as int);
                }
                return Err(PickError::BadRound { text: string_of_all(rt) });
            },
        };
        if num < 1 || num - 1 >= n {
            proof {
                lemma_apply_err(*detail, av, k + 1, av.len() as int);
            }
            return Err(PickError::BadRound { text: string_of_all(rt) });
        }
        let idx = num - 1;
        let round = &detail.rounds[idx];
        let bounds = split_trimmed_bounds(ct, '|');
        let ghost codes = split_trimmed(ct@, '|');
        if bounds.len() == 0 {
            proof {
                lemma_apply_err(*detail, av, k + 1, av.len() as int);
            }
            return Err(PickError::NoCodes { round: num, name: round.name.clone(), valid: valid_codes(round) });
        }
        if count_outside(bounds.len(), round.min_quantity, round.max_quantity) {
            proof {
                lemma_apply_err(*detail, av, k + 1, av.len() as int);
            }
            return Err(PickError::BadCount { round: num, name: round.name.clone(), valid: valid_codes(round) });
        }
        if seen[idx] {
            proof {
                lemma_apply_err(*detail, av, k + 1, av.len() as int);
            }
            return Err(PickError::Repeated { round: num, name: round.name.clone(), valid: valid_codes(round) });
        }
        let found = match resolve(round, ct, &bounds, Ghost(codes), num) {
            Ok(f) => f,
            Err(e) => {
                proof {
                    lemma_apply_err(*detail, av, k + 1, av.len() as int);
                }
                return Err(e);
            },
        };
        let ghost old_picks = pick_views(picks@);
        picks.set(idx, found);
        seen.set(idx, true);
        assert(pick_views(picks@) =~= old_picks.update(idx as int, found@));
        k += 1;
    }
    let mut j: usize = 0;
    assert(seen@.skip(0) =~= seen@);
    while j < n
        invariant
            j <= n == detail.rounds@.len(),
            seen@.len() == n,
            forall|t: int| 0 <= t < j ==> seen@[t],
            assign_parts(split_trimmed(spec@, ',')) == Ok::<_, PickErr>(av),
            apply_all(*detail, av, av.len() as int) == Ok::<_, PickErr>((pick_views(picks@), seen@)),
            first_unseen(seen@) == match first_unseen(seen@.skip(j as int)) {
                Some(t) => Some(t + j),
                None => None,
            },
        decreases n - j,
    {
        assert(seen@.skip(j as int).drop_first() =~= seen@.skip(j + 1));
        assert(seen@.skip(j as int)[0] == seen@[j as int]);
        if !seen[j] {
            let round = &detail.rounds[j];
            return Err(PickError::Missing { round: j + 1, name: round.name.clone(), valid: valid_codes(round) });
        }
        j += 1;
    }
    Ok(picks)
}

} // verus!

verus! {

/// A selection that a combo accepts: one entry per round, each naming between
/// the round's minimum and maximum number of distinct choices of that round.
pub open spec fn valid_selection(d: MealDetail, p: Seq<Seq<usize>>) -> bool {
    &&& p.len() == d.rounds@.len()
    &&& forall|ri: int| 0 <= ri < p.len() ==> round_selection_ok(d.rounds@[ri], #[trigger] p[ri])
}

/// The picks of one round are a nonempty list of distinct choices of the
/// round, as many as the round allows.
pub open spec fn round_selection_ok(round: Round, rp: Seq<usize>) -> bool {
    &&& rp.len() > 0
    &&& round.min_quantity <= rp.len() <= round.max_quantity
    &&& forall|k: int| 0 <= k < rp.len() ==> #[trigger] rp[k] < round.choices@.len()
    &&& forall|a: int, b: int| 0 <= a < b < rp.len() ==> rp[a] != rp[b]
}

proof fn lemma_code_index(cs: Seq<Choice>, code: Seq<char>)
    ensures
        code_index(cs, code) matches Some(i) ==> 0 <= i < cs.len() && cs[i].code@ == code,
    decreases cs.len(),
{
    if cs.len() > 0 {
        lemma_code_index(cs.drop_first(), code);
    }
}

proof fn lemma_resolve_ok(round: Round, codes: Seq<Seq<char>>, num: nat, k: int)
    requires
        0 <= k <= codes.len(),
    ensures
        resolve_codes(round, codes, num, k) matches Ok(f) ==> {
            &&& f.len() == k
            &&& forall|j: int| 0 <= j < f.len() ==> #[trigger] f[j] < round.choices@.len()
                && round.choices@[f[j] as int].code@ == codes[j]
            &&& forall|a: int, b: int| 0 <= a < b < f.len() ==> f[a] != f[b]
        },
    decreases k,
{
    assert(round.choices@.len() == round.choices.len());
    if k > 0 {
        lemma_resolve_ok(round, codes, num, k - 1);
        lemma_code_index(round.choices@, codes[k - 1]);
        match resolve_codes(round, codes, num, k - 1) {
            Ok(found) => {
                match code_index(round.choices@, codes[k - 1]) {
                    Some(i) => {
                        if !found.contains(i as usize) {
                            let f = found.push(i as usize);
                            assert forall|a: int, b: int| 0 <= a < b < f.len() implies f[a] != f[b] by {
                                if b == f.len() - 1 {
                                    if f[a] == f[b] {
                                        assert(found[a] == i as usize);
                                        assert(found.contains(i as usize));
                                    }
                                }
                            }
                        }
                    },
                    None => {},
                }
            },
            Err(_) => {},
        }
    }
}

/// The state after some assignments: every round seen so far holds a valid
/// selection.
spec fn state_ok(d: MealDetail, st: (Seq<Seq<usize>>, Seq<bool>)) -> bool {
    &&& st.0.len() == d.rounds@.len()
    &&& st.1.len() == d.rounds@.len()
    &&& forall|ri: int| 0 <= ri < st.1.len() && #[trigger] st.1[ri] ==> round_selection_ok(d.rounds@[ri], st.0[ri])
}

proof fn lemma_apply_ok(d: MealDetail, assigns: Seq<(Seq<char>, Seq<char>)>, k: int)
    requires
        0 <= k <= assigns.len(),
    ensures
        apply_all(d, assigns, k) matches Ok(st) ==> state_ok(d, st),
    decreases k,
{
    if k > 0 {
        lemma_apply_ok(d, assigns, k - 1);
        match apply_all(d, assigns, k - 1) {
            Ok(st) => {
                let a = assigns[k - 1];
                match parse_usize_spec(a.0) {
                    Some(num) => {
                        if !(num < 1 || num - 1 >= d.rounds@.len()) {
                            let idx = num - 1;
                            let round = d.rounds@[idx as int];
                            let codes = split_trimmed(a.1, '|');
                            lemma_resolve_ok(round, codes, num, codes.len() as int);
                            match apply_all(d, assigns, k) {
                                Ok(st2) => {
                                    assert forall|ri: int| 0 <= ri < st2.1.len() && #[trigger] st2.1[ri] implies round_selection_ok(d.rounds@[ri], st2.0[ri]) by {
                                        if ri != idx {
                                            assert(st.1[ri]);
                                        }
                                    }
                                },
                                Err(_) => {},
                            }
                        }
                    },
                    None => {},
                }
            },
            Err(_) => {},
        }
    }
}

proof fn lemma_first_unseen(seen: Seq<bool>)
    ensures
        first_unseen(seen) is None ==> forall|i: int| 0 <= i < seen.len() ==> #[trigger] seen[i],
        first_unseen(seen) matches Some(i) ==> 0 <= i < seen.len() && !seen[i],
    decreases seen.len(),
{
    if seen.len() > 0 {
        lemma_first_unseen(seen.drop_first());
        assert forall|i: int| 0 < i < seen.len() implies seen[i] == seen.drop_first()[i - 1] by {}
    }
}

/// Law: a selection spec that is accepted selects, for every round of the
/// meal, between the round's minimum and maximum number of distinct choices
/// that the round offers.
pub proof fn lemma_accepted_pick_is_valid(d: MealDetail, spec: Seq<char>)
    ensures
        pick_result(d, spec) matches Ok(p) ==> valid_selection(d, p),
{
    match assign_parts(split_trimmed(spec, ',')) {
        Ok(assigns) => {
            lemma_apply_ok(d, assigns, assigns.len() as int);
            match apply_all(d, assigns, assigns.len() as int) {
                Ok(st) => {
                    lemma_first_unseen(st.1);
                    if first_unseen(st.1) is None {
                        assert forall|ri: int| 0 <= ri < st.0.len() implies round_selection_ok(d.rounds@[ri], #[trigger] st.0[ri]) by {
                            assert(st.1[ri]);
                        }
                    }
                },
                Err(_) => {},
            }
        },
        Err(_) => {},
    }
}

/// The `roundList` entry of round `ri` for picks that all name choices: the
/// round's id and one combo entry per pick, in order.
pub open spec fn full_round_entry(
    d: MealDetail,
    picks: Seq<Vec<usize>>,
    mods: Seq<Vec<Option<ModSelection>>>,
    ri: int,
) -> JVal {
    let round = d.rounds@[ri];
    let rp = picks[ri]@;
    JVal::Obj(
        seq![
            ("round"@, JVal::Str(int_text(round.id as int))),
            (
                "comboItemList"@,
                JVal::Arr(
                    Seq::new(rp.len(), |k: int| combo_val(round.choices@[rp[k] as int], mod_at(mods, ri, k))),
                ),
            ),
        ],
    )
}

proof fn lemma_combos_all(round: Round, rp: Seq<usize>, mods: Seq<Vec<Option<ModSelection>>>, ri: int, k: int)
    requires
        0 <= k <= rp.len(),
        forall|j: int| 0 <= j < rp.len() ==> #[trigger] rp[j] < round.choices@.len(),
    ensures
        combos_upto(round, rp, mods, ri, k) == Seq::new(
            k as nat,
            |j: int| combo_val(round.choices@[rp[j] as int], mod_at(mods, ri, j)),
        ),
    decreases k,
{
    if k > 0 {
        lemma_combos_all(round, rp, mods, ri, k - 1);
        assert(rp[k - 1] < round.choices@.len());
        assert(combos_upto(round, rp, mods, ri, k) =~= Seq::new(
            k as nat,
            |j: int| combo_val(round.choices@[rp[j] as int], mod_at(mods, ri, j)),
        ));
    }
}

proof fn lemma_round_list_all(d: MealDetail, picks: Seq<Vec<usize>>, mods: Seq<Vec<Option<ModSelection>>>, k: int)
    requires
        valid_selection(d, pick_views(picks)),
        0 <= k <= d.rounds@.len(),
    ensures
        round_list_upto(d, picks, mods, k) == Seq::new(k as nat, |ri: int| full_round_entry(d, picks, mods, ri)),
    decreases k,
{
    if k > 0 {
        lemma_round_list_all(d, picks, mods, k - 1);
        let ri = k - 1;
        let rp = picks[ri]@;
        assert(pick_views(picks)[ri] == rp);
        assert(round_selection_ok(d.rounds@[ri], pick_views(picks)[ri]));
        lemma_combos_all(d.rounds@[ri], rp, mods, ri, rp.len() as int);
        let combos = combos_upto(d.rounds@[ri], rp, mods, ri, rp.len() as int);
        assert(combos.len() > 0);
        assert(round_entry(d, picks, mods, ri) == Some(full_round_entry(d, picks, mods, ri)));
        assert(round_list_upto(d, picks, mods, k) =~= Seq::new(k as nat, |ri: int| full_round_entry(d, picks, mods, ri)));
    }
}

/// Law: the order item of a valid selection of a combo lists every round
/// once, in order, with its id and one combo entry per picked choice, in the
/// order picked.
pub proof fn lemma_valid_selection_item(
    d: MealDetail,
    qty: nat,
    picks: Seq<Vec<usize>>,
    mods: Seq<Vec<Option<ModSelection>>>,
)
    requires
        valid_selection(d, pick_views(picks)),
        d.rounds@.len() > 0,
    ensures
        item_val(d, qty, picks, mods, None) == JVal::Obj(
            seq![
                ("productCode"@, JVal::Str(d.code@)),
                ("quantity"@, JVal::Int(qty as int)),
                ("roundList"@, JVal::Arr(Seq::new(d.rounds@.len(), |ri: int| full_round_entry(d, picks, mods, ri)))),
            ],
        ),
{
    lemma_round_list_all(d, picks, mods, d.rounds@.len() as int);
    assert(picks.len() == pick_views(picks).len());
    let base = seq![("productCode"@, JVal::Str(d.code@)), ("quantity"@, JVal::Int(qty as int))];
    let list = JVal::Arr(Seq::new(d.rounds@.len(), |ri: int| full_round_entry(d, picks, mods, ri)));
    assert(base.push(("roundList"@, list)) =~= seq![
        ("productCode"@, JVal::Str(d.code@)),
        ("quantity"@, JVal::Int(qty as int)),
        ("roundList"@, list),
    ]);
}

proof fn lemma_combo_lookup(c: Choice, sel: Option<ModSelection>, key: Seq<char>)
    ensures
        combo_val(c, sel).get(key) == if key == "code"@ {
            Some(JVal::Str(c.code@))
        } else if key == "quantity"@ {
            Some(JVal::Int(1))
        } else if key == "modification"@ {
            match sel {
                Some(s) => if s.values@.len() > 0 {
                    Some(JVal::Obj(seq![("values"@, JVal::Arr(jvs(s.values@)))]))
                } else {
                    None
                },
                None => None,
            }
        } else {
            None
        },
{
    reveal_strlit("code");
    reveal_strlit("quantity");
    reveal_strlit("modification");
    assert("code"@.len() == 4 && "quantity"@.len() == 8 && "modification"@.len() == 12);
    let es = match combo_val(c, sel) {
        JVal::Obj(es) => es,
        _ => Seq::empty(),
    };
    assert(combo_val(c, sel) == JVal::Obj(es));
    let e1 = es.drop_first();
    let e2 = e1.drop_first();
    assert(es[0] == ("code"@, JVal::Str(c.code@)));
    assert(es[1] == ("quantity"@, JVal::Int(1)));
    assert(e1[0] == es[1]);
    assert(obj_lookup(es, key) == if es[0].0 == key { Some(es[0].1) } else { obj_lookup(e1, key) });
    assert(obj_lookup(e1, key) == if e1[0].0 == key { Some(e1[0].1) } else { obj_lookup(e2, key) });
    match sel {
        Some(s) => if s.values@.len() > 0 {
            assert(es.len() == 3);
            assert(es[2] == ("modification"@, JVal::Obj(seq![("values"@, JVal::Arr(jvs(s.values@)))])));
        } else {
            assert(es.len() == 2);
        },
        None => {
            assert(es.len() == 2);
        },
    }
    if es.len() > 2 {
        assert(e2[0] == es[2]);
        assert(e2.drop_first() =~= Seq::<(Seq<char>, JVal)>::empty());
        assert(obj_lookup(e2.drop_first(), key) is None);
    } else {
        assert(e2 =~= Seq::<(Seq<char>, JVal)>::empty());
        assert(obj_lookup(e2, key) is None);
    }
}

/// Law: the order item of a valid selection of a combo has a `roundList`
/// with one entry per round, in round order; the entry of a round holds the
/// round's id as text and a `comboItemList` with one item per pick, in pick
/// order; each such item holds the picked choice's code, quantity 1, and,
/// exactly when 特调 values were chosen for that pick, a `modification`
/// whose `values` are the chosen values.
pub proof fn lemma_combo_item_contents(
    d: MealDetail,
    qty: nat,
    picks: Seq<Vec<usize>>,
    mods: Seq<Vec<Option<ModSelection>>>,
    ri: int,
    k: int,
)
    requires
        valid_selection(d, pick_views(picks)),
        0 <= ri < d.rounds@.len(),
        0 <= k < picks[ri]@.len(),
    ensures
        ({
            let v = item_val(d, qty, picks, mods, None);
            let round = d.rounds@[ri];
            let c = round.choices@[picks[ri]@[k] as int];
            &&& v.get("roundList"@) matches Some(JVal::Arr(l)) && l.len() == d.rounds@.len() && {
                let e = l[ri];
                &&& e.get("round"@) == Some(JVal::Str(int_text(round.id as int)))
                &&& e.get("comboItemList"@) matches Some(JVal::Arr(cs)) && cs.len() == picks[ri]@.len() && {
                    let item = cs[k];
                    &&& item.get("code"@) == Some(JVal::Str(c.code@))
                    &&& item.get("quantity"@) == Some(JVal::Int(1))
                    &&& item.get("modification"@) == match mod_at(mods, ri, k) {
                        Some(s) => if s.values@.len() > 0 {
                            Some(JVal::Obj(seq![("values"@, JVal::Arr(jvs(s.values@)))]))
                        } else {
                            None
                        },
                        None => None,
                    }
                }
            }
        }),
{
    lemma_valid_selection_item(d, qty, picks, mods);
    reveal_strlit("productCode");
    reveal_strlit("quantity");
    reveal_strlit("roundList");
    reveal_strlit("round");
    reveal_strlit("comboItemList");
    assert("productCode"@.len() == 11 && "quantity"@.len() == 8 && "roundList"@.len() == 9);
    assert("round"@.len() == 5 && "comboItemList"@.len() == 13);
    let l = Seq::new(d.rounds@.len(), |r: int| full_round_entry(d, picks, mods, r));
    let top = seq![
        ("productCode"@, JVal::Str(d.code@)),
        ("quantity"@, JVal::Int(qty as int)),
        ("roundList"@, JVal::Arr(l)),
    ];
    assert(top.drop_first()[0] == top[1]);
    assert(top.drop_first().drop_first()[0] == top[2]);
    assert(obj_lookup(top, "roundList"@) == obj_lookup(top.drop_first(), "roundList"@));
    assert(obj_lookup(top.drop_first(), "roundList"@) == obj_lookup(top.drop_first().drop_first(), "roundList"@));
    let e = l[ri];
    let rp = picks[ri]@;
    let round = d.rounds@[ri];
    let cs = Seq::new(rp.len(), |j: int| combo_val(round.choices@[rp[j] as int], mod_at(mods, ri, j)));
    let es = seq![("round"@, JVal::Str(int_text(round.id as int))), ("comboItemList"@, JVal::Arr(cs))];
    assert(e == JVal::Obj(es));
    assert(es.drop_first()[0] == es[1]);
    assert(obj_lookup(es, "comboItemList"@) == obj_lookup(es.drop_first(), "comboItemList"@));
    lemma_combo_lookup(round.choices@[rp[k] as int], mod_at(mods, ri, k), "code"@);
    lemma_combo_lookup(round.choices@[rp[k] as int], mod_at(mods, ri, k), "quantity"@);
    lemma_combo_lookup(round.choices@[rp[k] as int], mod_at(mods, ri, k), "modification"@);
    reveal_strlit("code");
    reveal_strlit("modification");
    assert("code"@.len() == 4 && "modification"@.len() == 12);
}

/// Law: a selection spec that `parse_pick_spec` accepts gives an order item
/// that lists every round of the combo once, in order, with the choices it
/// names.
pub proof fn lemma_accepted_pick_item(
    d: MealDetail,
    spec: Seq<char>,
    qty: nat,
    picks: Seq<Vec<usize>>,
    mods: Seq<Vec<Option<ModSelection>>>,
)
    requires
        pick_result(d, spec) == Ok::<_, PickErr>(pick_views(picks)),
        d.rounds@.len() > 0,
    ensures
        item_val(d, qty, picks, mods, None) == JVal::Obj(
            seq![
                ("productCode"@, JVal::Str(d.code@)),
                ("quantity"@, JVal::Int(qty as int)),
                ("roundList"@, JVal::Arr(Seq::new(d.rounds@.len(), |ri: int| full_round_entry(d, picks, mods, ri)))),
            ],
        ),
{
    lemma_accepted_pick_is_valid(d, spec);
    lemma_valid_selection_item(d, qty, picks, mods);
}


// ---- the order of the groups of a spec ----

/// The assignment `(round text, codes text)` of a part that holds an `=`:
/// the trimmed texts before and after its first `=`.
pub open spec fn eq_split(t: Seq<char>) -> (Seq<char>, Seq<char>) {
    match index_of(t, '=') {
        Some(i) => (trim(t.take(i)), trim(t.skip(i + 1))),
        None => (t, Seq::empty()),
    }
}

/// The assignment that a part of a spec holding an `=` makes.
pub open spec fn part_assignment(part: Seq<char>) -> (Seq<char>, Seq<char>) {
    eq_split(trim(part))
}

/// Two assignments that name the same round text and the same codes, up to
/// whitespace around the codes.
pub open spec fn same_assignment(a: (Seq<char>, Seq<char>), b: (Seq<char>, Seq<char>)) -> bool {
    a.0 == b.0 && split_trimmed(a.1, '|') == split_trimmed(b.1, '|')
}

/// Whether an assignment applies on its own: its round number names a round
/// of the meal, and its codes are as many as the round allows and name
/// distinct choices of it.
pub open spec fn assignment_ok(d: MealDetail, a: (Seq<char>, Seq<char>)) -> bool {
    match parse_usize_spec(a.0) {
        None => false,
        Some(num) => if num < 1 || num - 1 >= d.rounds@.len() {
            false
        } else {
            let round = d.rounds@[num - 1];
            let codes = split_trimmed(a.1, '|');
            &&& codes.len() > 0
            &&& !(codes.len() < round.min_quantity || codes.len() > round.max_quantity)
            &&& resolve_codes(round, codes, num, codes.len() as int) is Ok
        },
    }
}

/// The index of the round that an assignment names.
pub open spec fn assignment_round(a: (Seq<char>, Seq<char>)) -> int {
    match parse_usize_spec(a.0) {
        Some(num) => num - 1,
        None => -1,
    }
}

/// The choices that an assignment that applies picks.
pub open spec fn assignment_found(d: MealDetail, a: (Seq<char>, Seq<char>)) -> Seq<usize> {
    match parse_usize_spec(a.0) {
        Some(num) => if num < 1 || num - 1 >= d.rounds@.len() {
            Seq::empty()
        } else {
            let round = d.rounds@[num - 1];
            let codes = split_trimmed(a.1, '|');
            match resolve_codes(round, codes, num, codes.len() as int) {
                Ok(f) => f,
                Err(_) => Seq::empty(),
            }
        },
        None => Seq::empty(),
    }
}

/// The first `k` assignments all apply, each to a round of its own.
pub open spec fn all_apply(d: MealDetail, a: Seq<(Seq<char>, Seq<char>)>, k: int) -> bool {
    &&& forall|j: int| 0 <= j < k ==> assignment_ok(d, #[trigger] a[j])
    &&& forall|i: int, j: int|
        #![trigger assignment_round(a[i]), assignment_round(a[j])]
        0 <= i < k && 0 <= j < k && i != j ==> assignment_round(a[i]) != assignment_round(a[j])
}

/// The picks and rounds seen after the first `k` assignments, where they
/// all apply: each named round holds its choices, the others nothing.
pub open spec fn state_after(d: MealDetail, a: Seq<(Seq<char>, Seq<char>)>, k: int, st: (Seq<Seq<usize>>, Seq<bool>)) -> bool {
    &&& st.0.len() == d.rounds@.len()
    &&& st.1.len() == d.rounds@.len()
    &&& forall|j: int| 0 <= j < k ==> st.1[assignment_round(#[trigger] a[j])]
        && st.0[assignment_round(a[j])] == assignment_found(d, a[j])
    &&& forall|r: int|
        #![trigger st.1[r]]
        #![trigger st.0[r]]
        0 <= r < d.rounds@.len() && (forall|j: int| 0 <= j < k ==> assignment_round(#[trigger] a[j]) != r)
            ==> !st.1[r] && st.0[r] == Seq::<usize>::empty()
}

proof fn lemma_assign_all(parts: Seq<Seq<char>>)
    requires
        forall|i: int| 0 <= i < parts.len() ==> #[trigger] index_of(parts[i], '=') is Some,
    ensures
        assign_parts(parts) == Ok::<_, PickErr>(Seq::new(parts.len(), |i: int| eq_split(parts[i]))),
    decreases parts.len(),
{
    if parts.len() > 0 {
        let p = parts.drop_last();
        assert forall|i: int| 0 <= i < p.len() implies #[trigger] index_of(p[i], '=') is Some by {
            assert(p[i] == parts[i]);
            assert(index_of(parts[i], '=') is Some);
        }
        lemma_assign_all(p);
        assert(index_of(parts[parts.len() - 1], '=') is Some);
        assert(p =~= parts.drop_last());
        let acc = Seq::new(p.len(), |i: int| eq_split(p[i]));
        assert(assign_parts(parts.drop_last()) == Ok::<_, PickErr>(acc));
        let part = parts.last();
        let i = index_of(part, '=')->Some_0;
        assert(eq_split(part) == (trim(part.take(i)), trim(part.skip(i + 1))));
        assert(assign_parts(parts) == Ok::<_, PickErr>(acc.push(eq_split(part))));
        assert(acc.push(eq_split(part)) =~= Seq::new(parts.len(), |i: int| eq_split(parts[i])));
    } else {
        assert(Seq::new(parts.len(), |i: int| eq_split(parts[i])) =~= Seq::<(Seq<char>, Seq<char>)>::empty());
    }
}

proof fn lemma_apply_all_state(d: MealDetail, a: Seq<(Seq<char>, Seq<char>)>, k: int)
    requires
        0 <= k <= a.len(),
    ensures
        apply_all(d, a, k) is Ok <==> all_apply(d, a, k),
        apply_all(d, a, k) matches Ok(st) ==> state_after(d, a, k, st),
    decreases k,
{
    if k == 0 {
        match apply_all(d, a, k) {
            Ok(st) => {
                assert forall|r: int| 0 <= r < d.rounds@.len() implies !st.1[r] && st.0[r] == Seq::<usize>::empty() by {}
            },
            Err(_) => {},
        }
    } else {
        lemma_apply_all_state(d, a, k - 1);
        let x = a[k - 1];
        match apply_all(d, a, k - 1) {
            Err(_) => {
                assert(!all_apply(d, a, k - 1));
                if all_apply(d, a, k) {
                    assert(all_apply(d, a, k - 1)) by {
                        assert forall|i: int, j: int|
                            0 <= i < k - 1 && 0 <= j < k - 1 && i != j implies assignment_round(a[i]) != assignment_round(a[j]) by {}
                    }
                }
            },
            Ok(st) => {
                if assignment_ok(d, x) {
                    let idx = assignment_round(x);
                    assert(0 <= idx < d.rounds@.len());
                    if st.1[idx] {
                        if forall|j: int| 0 <= j < k - 1 ==> assignment_round(#[trigger] a[j]) != idx {
                            assert(!st.1[idx]);
                        }
                        let j = choose|j: int| 0 <= j < k - 1 && assignment_round(#[trigger] a[j]) == idx;
                        assert(apply_all(d, a, k) is Err);
                        assert(!all_apply(d, a, k)) by {
                            assert(assignment_round(a[j]) == assignment_round(a[k - 1]));
                        }
                    } else {
                        assert(apply_all(d, a, k) is Ok);
                        assert forall|j: int| 0 <= j < k - 1 implies assignment_round(#[trigger] a[j]) != idx by {
                            assert(st.1[assignment_round(a[j])]);
                        }
                        assert(all_apply(d, a, k)) by {
                            assert forall|i: int, j: int|
                                0 <= i < k && 0 <= j < k && i != j implies assignment_round(a[i]) != assignment_round(a[j]) by {
                                if i < k - 1 && j < k - 1 {
                                } else if i == k - 1 {
                                    assert(assignment_round(a[j]) != idx);
                                } else {
                                    assert(assignment_round(a[i]) != idx);
                                }
                            }
                        }
                        let st2 = apply_all(d, a, k)->Ok_0;
                        assert(st2.0 == st.0.update(idx, assignment_found(d, x)));
                        assert(st2.1 == st.1.update(idx, true));
                        assert forall|j: int| 0 <= j < k implies st2.1[assignment_round(#[trigger] a[j])]
                            && st2.0[assignment_round(a[j])] == assignment_found(d, a[j]) by {
                            if j < k - 1 {
                                assert(assignment_round(a[j]) != idx);
                            }
                        }
                        assert forall|r: int|
                            0 <= r < d.rounds@.len() && (forall|j: int| 0 <= j < k ==> assignment_round(#[trigger] a[j]) != r)
                            implies !st2.1[r] && st2.0[r] == Seq::<usize>::empty() by {
                            assert(assignment_round(a[k - 1]) != r);
                            assert forall|j: int| 0 <= j < k - 1 implies assignment_round(#[trigger] a[j]) != r by {}
                        }
                    }
                } else {
                    assert(apply_all(d, a, k) is Err);
                    assert(!all_apply(d, a, k)) by {
                        assert(!assignment_ok(d, a[k - 1]));
                    }
                }
            },
        }
    }
}

/// Two assignment lists of which one is the other reordered, up to
/// whitespace in the codes, apply alike and leave the same picks.
proof fn lemma_apply_all_reordered(
    d: MealDetail,
    a: Seq<(Seq<char>, Seq<char>)>,
    b: Seq<(Seq<char>, Seq<char>)>,
    perm: Seq<int>,
)
    requires
        a.len() == b.len() == perm.len(),
        forall|j: int| 0 <= j < b.len() ==> 0 <= #[trigger] perm[j] < a.len(),
        forall|i: int, j: int| 0 <= i < b.len() && 0 <= j < b.len() && i != j ==> perm[i] != perm[j],
        forall|i: int| 0 <= i < a.len() ==> #[trigger] perm.contains(i),
        forall|j: int| 0 <= j < b.len() ==> same_assignment(#[trigger] b[j], a[perm[j]]),
    ensures
        apply_all(d, a, a.len() as int) is Ok <==> apply_all(d, b, b.len() as int) is Ok,
        apply_all(d, a, a.len() as int) is Ok ==> apply_all(d, a, a.len() as int) == apply_all(d, b, b.len() as int),
{
    let n = a.len() as int;
    lemma_apply_all_state(d, a, n);
    lemma_apply_all_state(d, b, n);
    assert forall|j: int| 0 <= j < n implies {
        &&& assignment_ok(d, #[trigger] b[j]) == assignment_ok(d, a[perm[j]])
        &&& assignment_round(b[j]) == assignment_round(a[perm[j]])
        &&& assignment_found(d, b[j]) == assignment_found(d, a[perm[j]])
    } by {
        assert(same_assignment(b[j], a[perm[j]]));
    }
    if all_apply(d, a, n) {
        assert forall|j: int| 0 <= j < n implies assignment_ok(d, #[trigger] b[j]) by {
            assert(assignment_ok(d, a[perm[j]]));
        }
        assert forall|i: int, j: int|
            0 <= i < n && 0 <= j < n && i != j implies assignment_round(b[i]) != assignment_round(b[j]) by {
            assert(assignment_round(b[i]) == assignment_round(a[perm[i]]));
            assert(assignment_round(b[j]) == assignment_round(a[perm[j]]));
        }
        assert(all_apply(d, b, n));
    }
    if all_apply(d, b, n) {
        assert forall|i: int| 0 <= i < n implies assignment_ok(d, #[trigger] a[i]) by {
            assert(perm.contains(i));
            let j = choose|j: int| 0 <= j < n && #[trigger] perm[j] == i;
            assert(assignment_ok(d, b[j]));
        }
        assert forall|i1: int, i2: int|
            0 <= i1 < n && 0 <= i2 < n && i1 != i2 implies assignment_round(a[i1]) != assignment_round(a[i2]) by {
            assert(perm.contains(i1));
            assert(perm.contains(i2));
            let j1 = choose|j: int| 0 <= j < n && #[trigger] perm[j] == i1;
            let j2 = choose|j: int| 0 <= j < n && #[trigger] perm[j] == i2;
            assert(assignment_round(b[j1]) != assignment_round(b[j2]));
        }
        assert(all_apply(d, a, n));
    }
    if all_apply(d, a, n) {
        let sa = apply_all(d, a, n)->Ok_0;
        let sb = apply_all(d, b, n)->Ok_0;
        assert forall|r: int| 0 <= r < d.rounds@.len() implies sa.1[r] == sb.1[r] && sa.0[r] == sb.0[r] by {
            if exists|i: int| 0 <= i < n && assignment_round(#[trigger] a[i]) == r {
                let i = choose|i: int| 0 <= i < n && assignment_round(#[trigger] a[i]) == r;
                assert(perm.contains(i));
                let j = choose|j: int| 0 <= j < n && #[trigger] perm[j] == i;
                assert(assignment_round(b[j]) == r);
                assert(sa.0[assignment_round(a[i])] == assignment_found(d, a[i]));
                assert(sb.0[assignment_round(b[j])] == assignment_found(d, b[j]));
            } else {
                assert forall|j: int| 0 <= j < n implies assignment_round(#[trigger] b[j]) != r by {
                    assert(assignment_round(b[j]) == assignment_round(a[perm[j]]));
                }
                assert forall|i: int| 0 <= i < n implies assignment_round(#[trigger] a[i]) != r by {}
            }
        }
        assert(sa.0 =~= sb.0);
        assert(sa.1 =~= sb.1);
    }
}

/// Law: the groups of a selection spec can be given in any order, and with
/// whitespace around `,`, `=`, `|` and at both ends. Where every part of two
/// specs between commas holds an `=`, and the parts of the second are those
/// of the first reordered (`perm` maps each part of the second to its part
/// of the first), each naming the same round and the same codes, one spec is
/// accepted exactly when the other is, and then with the same picks.
pub proof fn lemma_pick_order_free(d: MealDetail, spec1: Seq<char>, spec2: Seq<char>, perm: Seq<int>)
    requires
        split_on(spec1, ',').len() == split_on(spec2, ',').len() == perm.len(),
        forall|i: int| 0 <= i < split_on(spec1, ',').len() ==> (#[trigger] split_on(spec1, ',')[i]).contains('='),
        forall|i: int| 0 <= i < split_on(spec2, ',').len() ==> (#[trigger] split_on(spec2, ',')[i]).contains('='),
        forall|j: int| 0 <= j < perm.len() ==> 0 <= #[trigger] perm[j] < perm.len(),
        forall|i: int, j: int| 0 <= i < perm.len() && 0 <= j < perm.len() && i != j ==> perm[i] != perm[j],
        forall|i: int| 0 <= i < perm.len() ==> #[trigger] perm.contains(i),
        forall|j: int| 0 <= j < perm.len() ==> same_assignment(
            part_assignment(#[trigger] split_on(spec2, ',')[j]),
            part_assignment(split_on(spec1, ',')[perm[j]]),
        ),
    ensures
        pick_result(d, spec1) is Ok <==> pick_result(d, spec2) is Ok,
        pick_result(d, spec1) is Ok ==> pick_result(d, spec1) == pick_result(d, spec2),
{
    let a = lemma_spec_assignments(spec1);
    let b = lemma_spec_assignments(spec2);
    assert forall|j: int| 0 <= j < b.len() implies same_assignment(#[trigger] b[j], a[perm[j]]) by {
        assert(same_assignment(part_assignment(split_on(spec2, ',')[j]), part_assignment(split_on(spec1, ',')[perm[j]])));
    }
    lemma_apply_all_reordered(d, a, b, perm);
}

/// The assignments of a spec: its comma parts, trimmed and without empty
/// ones, grouped so that a part with `=` starts an assignment and the parts
/// without `=` that follow it add codes to it.
pub open spec fn spec_assignments(spec: Seq<char>) -> Result<Seq<(Seq<char>, Seq<char>)>, PickErr> {
    assign_parts(split_trimmed(spec, ','))
}

/// Law: the groups of a selection spec can be given in any order, a group
/// being a part with `=` together with the parts without `=` that continue
/// its codes, and with whitespace around `,`, `=`, `|` and at both ends.
/// Where both specs group into assignments and the assignments of the second
/// are those of the first reordered (`perm` maps each assignment of the
/// second to its assignment of the first), each naming the same round and the
/// same codes, one spec is accepted exactly when the other is, and then with
/// the same picks.
pub proof fn lemma_pick_groups_order_free(d: MealDetail, spec1: Seq<char>, spec2: Seq<char>, perm: Seq<int>)
    requires
        spec_assignments(spec1) is Ok,
        spec_assignments(spec2) is Ok,
        spec_assignments(spec1)->Ok_0.len() == perm.len(),
        spec_assignments(spec2)->Ok_0.len() == perm.len(),
        forall|j: int| 0 <= j < perm.len() ==> 0 <= #[trigger] perm[j] < perm.len(),
        forall|i: int, j: int| 0 <= i < perm.len() && 0 <= j < perm.len() && i != j ==> perm[i] != perm[j],
        forall|i: int| 0 <= i < perm.len() ==> #[trigger] perm.contains(i),
        forall|j: int| 0 <= j < perm.len() ==> same_assignment(
            #[trigger] spec_assignments(spec2)->Ok_0[j],
            spec_assignments(spec1)->Ok_0[perm[j]],
        ),
    ensures
        pick_result(d, spec1) is Ok <==> pick_result(d, spec2) is Ok,
        pick_result(d, spec1) is Ok ==> pick_result(d, spec1) == pick_result(d, spec2),
{
    let a = spec_assignments(spec1)->Ok_0;
    let b = spec_assignments(spec2)->Ok_0;
    assert forall|j: int| 0 <= j < b.len() implies same_assignment(#[trigger] b[j], a[perm[j]]) by {}
    lemma_apply_all_reordered(d, a, b, perm);
}

/// The assignments of a spec every part of which holds an `=`: one per part.
proof fn lemma_spec_assignments(spec: Seq<char>) -> (a: Seq<(Seq<char>, Seq<char>)>)
    requires
        forall|i: int| 0 <= i < split_on(spec, ',').len() ==> (#[trigger] split_on(spec, ',')[i]).contains('='),
    ensures
        a == Seq::new(split_on(spec, ',').len(), |i: int| part_assignment(split_on(spec, ',')[i])),
        assign_parts(split_trimmed(spec, ',')) == Ok::<_, PickErr>(a),
{
    let pieces = split_on(spec, ',');
    assert(!is_ws('='));
    assert forall|i: int| 0 <= i < pieces.len() implies trim(#[trigger] pieces[i]).contains('=') by {
        lemma_trim_keeps(pieces[i], '=');
    }
    assert forall|i: int| 0 <= i < pieces.len() implies trim(#[trigger] pieces[i]).len() > 0 by {
        assert(trim(pieces[i]).contains('='));
    }
    lemma_nonempty_trimmed_all(pieces);
    let t = Seq::new(pieces.len(), |i: int| trim(pieces[i]));
    assert forall|i: int| 0 <= i < t.len() implies #[trigger] index_of(t[i], '=') is Some by {
        lemma_index_of(t[i], '=');
        assert(t[i].contains('='));
    }
    lemma_assign_all(t);
    let a = Seq::new(pieces.len(), |i: int| part_assignment(pieces[i]));
    assert(Seq::new(t.len(), |i: int| eq_split(t[i])) =~= a);
    a
}

} // verus!
