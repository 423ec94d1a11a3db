//! The decisions of the interactive selection: how an answer typed at a
//! prompt selects choices of a round, toggles 特调 values, or answers yes/no.
use vstd::prelude::*;
use crate::meal::{Round, ModItem, ModValue, default_choice, any_preselected, preselected};
use crate::json::{Json, JVal, jv, jvs, entry, entries_view, lemma_obj_view};
use crate::text::{
    chars_of, split_bounds, split_on, trim, trim_bounds, parse_usize, parse_usize_spec, push_u64, push_i64,
    nat_text, int_text, bounds_hold, usize_text,
};

verus! {

/// `[a-zA-Z]` folded to lower case, other characters kept
/// (`str::to_ascii_lowercase`).
pub open spec fn ascii_lower(s: Seq<char>) -> Seq<char> {
    Seq::new(s.len(), |i: int| if 'A' <= s[i] <= 'Z' { ((s[i] as u32) + 32) as char } else { s[i] })
}

/// The yes/no reading of an answer: empty takes the default, `y`/`yes`/`是`
/// mean yes and `n`/`no`/`否` mean no (ASCII case ignored); anything else asks again.
pub open spec fn bool_answer_spec(answer: Seq<char>, default: bool) -> Option<bool> {
    let a = ascii_lower(answer);
    if answer.len() == 0 {
        Some(default)
    } else if a == "y"@ || a == "yes"@ || a == "是"@ {
        Some(true)
    } else if a == "n"@ || a == "no"@ || a == "否"@ {
        Some(false)
    } else {
        None
    }
}

fn lower_char(c: char) -> (r: char)
    ensures
        r == if 'A' <= c <= 'Z' { ((c as u32) + 32) as char } else { c },
{
    if 'A' <= c && c <= 'Z' {
        let b = c as u8;
        assert(b as int == c as int);
        ((b + 32) as char)
    } else {
        c
    }
}

/// Reads a yes/no answer (see [`bool_answer_spec`]); `None` asks again.
pub fn bool_answer(answer: &str, default: bool) -> (r: Option<bool>)
    ensures
        r == bool_answer_spec(answer@, default),
{
    let cs = chars_of(answer);
    let mut lower = String::new();
    let mut i: usize = 0;
    while i < cs.len()
        invariant
            i <= cs@.len(),
            lower@ == ascii_lower(cs@).take(i as int),
        decreases cs@.len() - i,
    {
        crate::text::push_char(&mut lower, lower_char(cs[i]));
        assert(ascii_lower(cs@).take(i + 1) =~= ascii_lower(cs@).take(i as int).push(ascii_lower(cs@)[i as int]));
        i += 1;
    }
    assert(ascii_lower(cs@).take(cs@.len() as int) =~= ascii_lower(answer@));
    if cs.len() == 0 {
        return Some(default);
    }
    let l = lower.as_str();
    if crate::text::str_eq(l, "y") || crate::text::str_eq(l, "yes") || crate::text::str_eq(l, "是") {
        Some(true)
    } else if crate::text::str_eq(l, "n") || crate::text::str_eq(l, "no") || crate::text::str_eq(l, "否") {
        Some(false)
    } else {
        None
    }
}

/// Reads a number answer: empty takes the default, otherwise `usize::from_str`.
pub open spec fn index_answer_spec(answer: Seq<char>, default: nat) -> Option<nat> {
    if answer.len() == 0 {
        Some(default)
    } else {
        parse_usize_spec(answer)
    }
}

/// Reads a number answer (see [`index_answer_spec`]); `None` is an invalid number.
pub fn index_answer(answer: &str, default: usize) -> (r: Option<usize>)
    ensures
        match r {
            Some(n) => index_answer_spec(answer@, default as nat) == Some(n as nat),
            None => index_answer_spec(answer@, default as nat) is None,
        },
{
    let cs = chars_of(answer);
    if cs.len() == 0 {
        return Some(default);
    }
    assert(cs@.subrange(0, cs@.len() as int) =~= cs@);
    parse_usize(&cs, 0, cs.len())
}

/// What an answer to a round prompt does.
#[derive(Debug, Clone)]
pub enum RoundAnswer {
    /// The answer selects these choice indices.
    Picked(Vec<usize>),
    /// The answer is refused; the prompt is asked again after this message.
    Retry(String),
    /// The answer is not a number where one number was asked for.
    Invalid,
}

/// A round asks for exactly one choice.
pub open spec fn single_choice(round: Round) -> bool {
    round.min_quantity == 1 && round.max_quantity == 1
}

/// The 1-based number of the round's default choice.
pub open spec fn default_number(round: Round) -> nat {
    if any_preselected(round.choices@) {
        (choose|i: int| 0 <= i < round.choices@.len() && preselected(round.choices@[i])
            && forall|j: int| 0 <= j < i ==> !preselected(#[trigger] round.choices@[j])) as nat + 1
    } else {
        1
    }
}

/// The choice indices that a comma-separated answer names: every part a
/// number between 1 and `len`, no number twice; `None` otherwise.
pub open spec fn numbers_fold(parts: Seq<Seq<char>>, len: nat, k: int) -> Option<Seq<usize>>
    decreases k,
{
    if k <= 0 {
        Some(Seq::empty())
    } else {
        match numbers_fold(parts, len, k - 1) {
            None => None,
            Some(picks) => match parse_usize_spec(trim(parts[k - 1])) {
                None => None,
                Some(n) => if 1 <= n <= len && !picks.contains((n - 1) as usize) {
                    Some(picks.push((n - 1) as usize))
                } else {
                    None
                },
            },
        }
    }
}

/// What an answer to a round prompt does: for a one-choice round, a number
/// in range picks that choice, empty picks the default, a non-number is
/// invalid; for other rounds, a comma-separated list of distinct numbers in
/// range (empty: the default) picks those choices when the count fits the
/// round.
pub open spec fn round_answer_spec(round: Round, answer: Seq<char>) -> Option<Option<Seq<usize>>> {
    let len = round.choices@.len();
    if single_choice(round) {
        let number = if answer.len() == 0 { Some(default_number(round)) } else { parse_usize_spec(answer) };
        match number {
            None => None,
            Some(n) => if 1 <= n <= len { Some(Some(seq![(n - 1) as usize])) } else { Some(None) },
        }
    } else {
        let text = if answer.len() == 0 { nat_text(default_number(round)) } else { answer };
        let parts = split_on(text, ',');
        match numbers_fold(parts, len, parts.len() as int) {
            Some(picks) => if round.min_quantity <= picks.len() <= round.max_quantity {
                Some(Some(picks))
            } else {
                Some(None)
            },
            None => Some(None),
        }
    }
}

} // verus!

verus! {

/// The message shown before a round prompt is asked again.
pub open spec fn retry_text(round: Round) -> Seq<char> {
    if single_choice(round) {
        "编号无效，请选择 1~"@ + nat_text(round.choices@.len())
    } else {
        "选择数量无效，请输入"@ + int_text(round.min_quantity as int) + "~"@ + int_text(round.max_quantity as int)
            + "个不同编号"@
    }
}

/// The 1-based number of the default choice.
pub fn default_number_of(round: &Round) -> (r: usize)
    requires
        round.choices@.len() < usize::MAX,
    ensures
        r == default_number(*round),
{
    let d = default_choice(round);
    proof {
        if any_preselected(round.choices@) {
            let i = choose|i: int| 0 <= i < round.choices@.len() && preselected(round.choices@[i])
                && forall|j: int| 0 <= j < i ==> !preselected(#[trigger] round.choices@[j]);
            assert(0 <= d < round.choices@.len() && preselected(round.choices@[d as int])
                && forall|j: int| 0 <= j < d ==> !preselected(#[trigger] round.choices@[j]));
            if i < d {
                assert(!preselected(round.choices@[i]));
            }
            if d < i {
                assert(!preselected(round.choices@[d as int]));
            }
        }
    }
    d + 1
}

/// The retry message of a round.
fn retry_message(round: &Round) -> (r: String)
    ensures
        r@ == retry_text(*round),
{
    let mut s = String::new();
    if round.min_quantity == 1 && round.max_quantity == 1 {
        s.append("编号无效，请选择 1~");
        push_u64(&mut s, round.choices.len() as u64);
    } else {
        s.append("选择数量无效，请输入");
        push_i64(&mut s, round.min_quantity);
        s.append("~");
        push_i64(&mut s, round.max_quantity);
        s.append("个不同编号");
    }
    proof {
        assert(s@ =~= retry_text(*round));
    }
    s
}

/// What an answer to a round prompt does (see [`round_answer_spec`] and
/// [`retry_text`]).
pub fn pick_round_choices(round: &Round, answer: &str) -> (r: RoundAnswer)
    requires
        round.choices@.len() < usize::MAX,
    ensures
        match r {
            RoundAnswer::Picked(p) => round_answer_spec(*round, answer@) == Some(Some(p@)),
            RoundAnswer::Retry(m) => round_answer_spec(*round, answer@) == Some(None::<Seq<usize>>) && m@
                == retry_text(*round),
            RoundAnswer::Invalid => round_answer_spec(*round, answer@) is None,
        },
{
    let default = default_number_of(round);
    let len = round.choices.len();
    if round.min_quantity == 1 && round.max_quantity == 1 {
        let number = match index_answer(answer, default) {
            Some(n) => n,
            None => return RoundAnswer::Invalid,
        };
        if 1 <= number && number <= len {
            let mut v: Vec<usize> = Vec::new();
            v.push(number - 1);
            assert(v@ =~= seq![(number - 1) as usize]);
            return RoundAnswer::Picked(v);
        }
        return RoundAnswer::Retry(retry_message(round));
    }
    let cs = if answer.is_empty() {
        let t = usize_text(default);
        chars_of(t.as_str())
    } else {
        chars_of(answer)
    };
    let ghost text = cs@;
    assert(text == if answer@.len() == 0 { nat_text(default_number(*round)) } else { answer@ });
    let pieces = split_bounds(&cs, 0, cs.len(), ',');
    assert(cs@.subrange(0, cs@.len() as int) =~= cs@);
    let ghost parts = split_on(text, ',');
    assert forall|j: int| 0 <= j < pieces@.len() implies bounds_hold(cs@, #[trigger] pieces@[j], parts[j]) by {
        assert(pieces@[j].0 <= pieces@[j].1);
    }
    let mut picks: Vec<usize> = Vec::new();
    let mut k: usize = 0;
    while k < pieces.len()
        invariant
            k <= pieces@.len(),
            len == round.choices@.len(),
            !(round.min_quantity == 1 && round.max_quantity == 1),
            cs@ == if answer@.len() == 0 { nat_text(default_number(*round)) } else { answer@ },
            parts == split_on(cs@, ','),
            pieces@.len() == parts.len(),
            forall|j: int| 0 <= j < pieces@.len() ==> bounds_hold(cs@, #[trigger] pieces@[j], parts[j]),
            numbers_fold(parts, len as nat, k as int) == Some(picks@),
        decreases pieces@.len() - k,
    {
        let (lo, hi) = pieces[k];
        assert(bounds_hold(cs@, pieces@[k as int], parts[k as int]));
        let (a, b) = trim_bounds(&cs, lo, hi);
        let n = match parse_usize(&cs, a, b) {
            Some(n) => n,
            None => {
                proof {
                    lemma_numbers_none(parts, len as nat, k + 1, parts.len() as int);
                }
                return RoundAnswer::Retry(retry_message(round));
            },
        };
        let mut dup = false;
        if 1 <= n && n <= len {
            let mut t: usize = 0;
            while t < picks.len()
                invariant
                    t <= picks@.len(),
                    1 <= n,
                    dup == exists|j: int| 0 <= j < t && picks@[j] == (n - 1) as usize,
                decreases picks@.len() - t,
            {
                if picks[t] == n - 1 {
                    dup = true;
                }
                t += 1;
            }
        }
        if !(1 <= n && n <= len) || dup {
            proof {
                lemma_numbers_none(parts, len as nat, k + 1, parts.len() as int);
            }
            return RoundAnswer::Retry(retry_message(round));
        }
        picks.push(n - 1);
        k += 1;
    }
    let count = picks.len();
    let below = round.min_quantity > 0 && (count as u64) < (round.min_quantity as u64);
    let above = round.max_quantity < 0 || (count as u64) > (round.max_quantity as u64);
    if below || above {
        return RoundAnswer::Retry(retry_message(round));
    }
    RoundAnswer::Picked(picks)
}

proof fn lemma_numbers_none(parts: Seq<Seq<char>>, len: nat, k: int, m: int)
    requires
        0 <= k <= m,
        numbers_fold(parts, len, k) is None,
    ensures
        numbers_fold(parts, len, m) is None,
    decreases m - k,
{
    if k < m {
        lemma_numbers_none(parts, len, k, m - 1);
    }
}

/// The header line of a round prompt.
pub open spec fn round_header_text(round: Round, round_no: nat) -> Seq<char> {
    "轮次"@ + nat_text(round_no) + "【"@ + round.name@ + "】 (选"@ + int_text(round.min_quantity as int) + "~"@
        + int_text(round.max_quantity as int) + "项, 当前已选"@ + int_text(round.quantity as int) + "):"@
}

pub fn round_header(round: &Round, round_no: usize) -> (r: String)
    ensures
        r@ == round_header_text(*round, round_no as nat),
{
    let mut s = String::new();
    s.append("轮次");
    push_u64(&mut s, round_no as u64);
    s.append("【");
    s.append(round.name.as_str());
    s.append("】 (选");
    push_i64(&mut s, round.min_quantity);
    s.append("~");
    push_i64(&mut s, round.max_quantity);
    s.append("项, 当前已选");
    push_i64(&mut s, round.quantity);
    s.append("):");
    proof {
        assert(s@ =~= round_header_text(*round, round_no as nat));
    }
    s
}

/// The prompt of a round: `请选择 [默认<n>]: ` for a one-choice round,
/// `请选择编号（逗号分隔，默认<n>）: ` otherwise.
pub open spec fn round_prompt_text(round: Round) -> Seq<char> {
    if single_choice(round) {
        "请选择 [默认"@ + nat_text(default_number(round)) + "]: "@
    } else {
        "请选择编号（逗号分隔，默认"@ + nat_text(default_number(round)) + "）: "@
    }
}

pub fn round_prompt(round: &Round) -> (r: String)
    requires
        round.choices@.len() < usize::MAX,
    ensures
        r@ == round_prompt_text(*round),
{
    let d = default_number_of(round);
    let mut s = String::new();
    if round.min_quantity == 1 && round.max_quantity == 1 {
        s.append("请选择 [默认");
        push_u64(&mut s, d as u64);
        s.append("]: ");
    } else {
        s.append("请选择编号（逗号分隔，默认");
        push_u64(&mut s, d as u64);
        s.append("）: ");
    }
    proof {
        assert(s@ =~= round_prompt_text(*round));
    }
    s
}

} // verus!

verus! {

proof fn lemma_numbers_ok(parts: Seq<Seq<char>>, len: nat, k: int)
    requires
        0 <= k <= parts.len(),
    ensures
        numbers_fold(parts, len, k) matches Some(p) ==> {
            &&& p.len() == k
            &&& forall|j: int| 0 <= j < p.len() ==> #[trigger] p[j] < len
            &&& forall|a: int, b: int| 0 <= a < b < p.len() ==> p[a] != p[b]
        },
    decreases k,
{
    if k > 0 {
        lemma_numbers_ok(parts, len, k - 1);
        match numbers_fold(parts, len, k - 1) {
            Some(picks) => match parse_usize_spec(trim(parts[k - 1])) {
                Some(n) => if 1 <= n <= len && !picks.contains((n - 1) as usize) {
                    let p = picks.push((n - 1) as usize);
                    assert forall|a: int, b: int| 0 <= a < b < p.len() implies p[a] != p[b] by {
                        if b == p.len() - 1 && p[a] == p[b] {
                            assert(picks[a] == (n - 1) as usize);
                        }
                    }
                },
                None => {},
            },
            None => {},
        }
    }
}

/// Law: an answer that selects choices of a round selects between the round's
/// minimum and maximum number of distinct choices that the round offers.
pub proof fn lemma_round_answer_valid(round: Round, answer: Seq<char>)
    ensures
        round_answer_spec(round, answer) matches Some(Some(p)) ==> crate::pick::round_selection_ok(round, p),
{
    let len = round.choices@.len();
    if !single_choice(round) {
        let text = if answer.len() == 0 { nat_text(default_number(round)) } else { answer };
        let parts = split_on(text, ',');
        crate::text::lemma_split_nonempty(text, ',');
        lemma_numbers_ok(parts, len, parts.len() as int);
    }
}

} // verus!
