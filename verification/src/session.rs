//! Decisions of the interactive session: which menu entry an answer picks,
//! the integer answers with their defaults, and which follow-up questions an
//! order asks.
use vstd::prelude::*;
use crate::text::{chars_of, digits_value, all_digits, trim, trimmed, str_eq, lemma_digits_value_monotone, int_text, nat_text, lemma_nat_text_digits};

verus! {

/// The entries of the interactive main menu.
#[derive(PartialEq, Eq, Structural, Clone, Copy, Debug)]
pub enum MenuChoice {
    TestConnection,
    Calendar,
    Time,
    Account,
    NearbyStores,
    DeliveryStores,
    Catering,
    Nutrition,
    AddressList,
    AddressAdd,
    Menu,
    MealDetail,
    StoreCoupons,
    Coupons,
    Mall,
    QuickOrder,
    OrderQuery,
    Quit,
    Invalid,
}

/// The entry that an answer picks: `1` to `17`, or `0`, `q`, `quit` or `exit`
/// to leave; anything else is invalid.
pub open spec fn menu_choice_spec(s: Seq<char>) -> MenuChoice {
    if s == "1"@ { MenuChoice::TestConnection }
    else if s == "2"@ { MenuChoice::Calendar }
    else if s == "3"@ { MenuChoice::Time }
    else if s == "4"@ { MenuChoice::Account }
    else if s == "5"@ { MenuChoice::NearbyStores }
    else if s == "6"@ { MenuChoice::DeliveryStores }
    else if s == "7"@ { MenuChoice::Catering }
    else if s == "8"@ { MenuChoice::Nutrition }
    else if s == "9"@ { MenuChoice::AddressList }
    else if s == "10"@ { MenuChoice::AddressAdd }
    else if s == "11"@ { MenuChoice::Menu }
    else if s == "12"@ { MenuChoice::MealDetail }
    else if s == "13"@ { MenuChoice::StoreCoupons }
    else if s == "14"@ { MenuChoice::Coupons }
    else if s == "15"@ { MenuChoice::Mall }
    else if s == "16"@ { MenuChoice::QuickOrder }
    else if s == "17"@ { MenuChoice::OrderQuery }
    else if s == "0"@ || s == "q"@ || s == "quit"@ || s == "exit"@ { MenuChoice::Quit }
    else { MenuChoice::Invalid }
}

/// The entry that an answer picks (see [`menu_choice_spec`]).
pub fn menu_choice(s: &str) -> (r: MenuChoice)
    ensures
        r == menu_choice_spec(s@),
{
    if str_eq(s, "1") { MenuChoice::TestConnection }
    else if str_eq(s, "2") { MenuChoice::Calendar }
    else if str_eq(s, "3") { MenuChoice::Time }
    else if str_eq(s, "4") { MenuChoice::Account }
    else if str_eq(s, "5") { MenuChoice::NearbyStores }
    else if str_eq(s, "6") { MenuChoice::DeliveryStores }
    else if str_eq(s, "7") { MenuChoice::Catering }
    else if str_eq(s, "8") { MenuChoice::Nutrition }
    else if str_eq(s, "9") { MenuChoice::AddressList }
    else if str_eq(s, "10") { MenuChoice::AddressAdd }
    else if str_eq(s, "11") { MenuChoice::Menu }
    else if str_eq(s, "12") { MenuChoice::MealDetail }
    else if str_eq(s, "13") { MenuChoice::StoreCoupons }
    else if str_eq(s, "14") { MenuChoice::Coupons }
    else if str_eq(s, "15") { MenuChoice::Mall }
    else if str_eq(s, "16") { MenuChoice::QuickOrder }
    else if str_eq(s, "17") { MenuChoice::OrderQuery }
    else if str_eq(s, "0") || str_eq(s, "q") || str_eq(s, "quit") || str_eq(s, "exit") { MenuChoice::Quit }
    else { MenuChoice::Invalid }
}

/// The entries of the coupon submenu.
#[derive(PartialEq, Eq, Structural, Clone, Copy, Debug)]
pub enum CouponChoice {
    Mine,
    Available,
    Receive,
    Invalid,
}

pub open spec fn coupon_choice_spec(s: Seq<char>) -> CouponChoice {
    if s == "a"@ { CouponChoice::Mine }
    else if s == "b"@ { CouponChoice::Available }
    else if s == "c"@ { CouponChoice::Receive }
    else { CouponChoice::Invalid }
}

/// The coupon entry that an answer picks: `a` own coupons, `b` coupons that
/// can be received, `c` receive them all.
pub fn coupon_choice(s: &str) -> (r: CouponChoice)
    ensures
        r == coupon_choice_spec(s@),
{
    if str_eq(s, "a") { CouponChoice::Mine }
    else if str_eq(s, "b") { CouponChoice::Available }
    else if str_eq(s, "c") { CouponChoice::Receive }
    else { CouponChoice::Invalid }
}

/// The entries of the points-mall submenu.
#[derive(PartialEq, Eq, Structural, Clone, Copy, Debug)]
pub enum MallChoice {
    Products,
    Detail,
    Exchange,
    Physical,
    Orders,
    OrderDetail,
    Invalid,
}

pub open spec fn mall_choice_spec(s: Seq<char>) -> MallChoice {
    if s == "a"@ { MallChoice::Products }
    else if s == "b"@ { MallChoice::Detail }
    else if s == "c"@ { MallChoice::Exchange }
    else if s == "d"@ { MallChoice::Physical }
    else if s == "e"@ { MallChoice::Orders }
    else if s == "f"@ { MallChoice::OrderDetail }
    else { MallChoice::Invalid }
}

/// The points-mall entry that an answer picks: `a` to `f`.
pub fn mall_choice(s: &str) -> (r: MallChoice)
    ensures
        r == mall_choice_spec(s@),
{
    if str_eq(s, "a") { MallChoice::Products }
    else if str_eq(s, "b") { MallChoice::Detail }
    else if str_eq(s, "c") { MallChoice::Exchange }
    else if str_eq(s, "d") { MallChoice::Physical }
    else if str_eq(s, "e") { MallChoice::Orders }
    else if str_eq(s, "f") { MallChoice::OrderDetail }
    else { MallChoice::Invalid }
}

/// An answer as the session reads it: the line, trimmed.
pub fn answer_text(line: &str) -> (r: String)
    ensures
        r@ == trim(line@),
{
    trimmed(line)
}

/// The answer to a question from the line read and the number of bytes
/// read: `None` where the input has ended (nothing was read), else the
/// trimmed line.
pub fn read_answer(bytes_read: usize, line: &str) -> (r: Option<String>)
    ensures
        match r {
            Some(s) => bytes_read != 0 && s@ == trim(line@),
            None => bytes_read == 0,
        },
{
    if bytes_read == 0 {
        None
    } else {
        Some(trimmed(line))
    }
}

/// An optional answer: the trimmed line, or `None` where it is empty.
pub fn optional_answer(line: &str) -> (r: Option<String>)
    ensures
        match r {
            Some(s) => s@ == trim(line@) && s@.len() > 0,
            None => trim(line@).len() == 0,
        },
{
    let s = trimmed(line);
    if s.as_str().is_empty() {
        None
    } else {
        Some(s)
    }
}

/// The value of a signed decimal text as `FromStr` for the integer types
/// reads it: an optional `+` or `-`, then at least one decimal digit and
/// nothing else; the range is not checked here.
pub open spec fn signed_value(s: Seq<char>) -> Option<int> {
    if s.len() > 0 && s[0] == '-' {
        let d = s.drop_first();
        if d.len() > 0 && all_digits(d) { Some(-digits_value(d)) } else { None }
    } else {
        let d = if s.len() > 0 && s[0] == '+' { s.drop_first() } else { s };
        if d.len() > 0 && all_digits(d) { Some(digits_value(d) as int) } else { None }
    }
}

/// `s.parse()` into an integer type with values `lo..=hi`.
pub open spec fn parse_in(s: Seq<char>, lo: int, hi: int) -> Option<int> {
    match signed_value(s) {
        Some(v) => if lo <= v <= hi { Some(v) } else { None },
        None => None,
    }
}

/// The value of `cs[start..]` as decimal digits, where they are one or more
/// digits and nothing else and the value is at most `limit`.
fn digits_upto(cs: &Vec<char>, start: usize, limit: u64) -> (r: Option<u64>)
    requires
        start <= cs@.len(),
    ensures
        match r {
            Some(v) => {
                let d = cs@.skip(start as int);
                d.len() > 0 && all_digits(d) && digits_value(d) == v && v <= limit
            },
            None => {
                let d = cs@.skip(start as int);
                !(d.len() > 0 && all_digits(d) && digits_value(d) <= limit)
            },
        },
{
    let ghost d = cs@.skip(start as int);
    let n = cs.len();
    if start == n {
        return None;
    }
    let mut value: u64 = 0;
    let mut i = start;
    while i < n
        invariant
            start <= i <= n == cs@.len(),
            d == cs@.skip(start as int),
            all_digits(cs@.subrange(start as int, i as int)),
            value as nat == digits_value(cs@.subrange(start as int, i as int)),
            value <= limit,
        decreases n - i,
    {
        let c = cs[i];
        assert(cs@.subrange(start as int, i + 1).drop_last() =~= cs@.subrange(start as int, i as int));
        if !('0' <= c && c <= '9') {
            assert(!all_digits(d)) by {
                assert(d[i - start] == c);
            }
            return None;
        }
        let digit = (c as u32 - '0' as u32) as u64;
        if digit > limit || value > (limit - digit) / 10 {
            proof {
                let t = cs@.subrange(start as int, i + 1);
                assert(digits_value(t) == value * 10 + digit);
                if digit <= limit {
                    assert(value * 10 + digit > limit) by (nonlinear_arith)
                        requires value > (limit - digit) / 10, digit <= limit;
                } else {
                    assert(value * 10 + digit > limit) by (nonlinear_arith)
                        requires digit > limit, value >= 0;
                }
                let k = i + 1 - start;
                assert(d.take(k as int) =~= t);
                if all_digits(d) {
                    lemma_digits_value_monotone(d, k as int);
                }
            }
            return None;
        }
        proof {
            assert(value * 10 + digit <= limit) by (nonlinear_arith)
                requires value <= (limit - digit) / 10, digit <= limit;
        }
        value = value * 10 + digit;
        i += 1;
    }
    assert(cs@.subrange(start as int, n as int) =~= d);
    Some(value)
}

/// `s.parse::<i64>()`.
pub fn parse_i64(s: &str) -> (r: Option<i64>)
    ensures
        match r {
            Some(v) => parse_in(s@, i64::MIN as int, i64::MAX as int) == Some(v as int),
            None => parse_in(s@, i64::MIN as int, i64::MAX as int) is None,
        },
{
    let cs = chars_of(s);
    if cs.len() > 0 && cs[0] == '-' {
        assert(cs@.skip(1) =~= s@.drop_first());
        match digits_upto(&cs, 1, 9223372036854775808u64) {
            Some(v) => {
                if v == 9223372036854775808u64 {
                    Some(i64::MIN)
                } else {
                    Some(-(v as i64))
                }
            },
            None => None,
        }
    } else {
        let start: usize = if cs.len() > 0 && cs[0] == '+' {
            1
        } else {
            0
        };
        assert(cs@.skip(start as int) =~= if s@.len() > 0 && s@[0] == '+' {
            s@.drop_first()
        } else {
            s@
        });
        match digits_upto(&cs, start, 9223372036854775807u64) {
            Some(v) => Some(v as i64),
            None => None,
        }
    }
}

/// An integer written in decimal, as the library writes round ids, counts and
/// codes, reads back as the same integer: `parse_i64` gives back every `i64`
/// from its text.
pub proof fn lemma_written_integer_reads_back(v: i64)
    ensures
        parse_in(int_text(v as int), i64::MIN as int, i64::MAX as int) == Some(v as int),
{
    if v < 0 {
        let m = (-(v as int)) as nat;
        lemma_nat_text_digits(m);
        let s = int_text(v as int);
        assert(s.drop_first() =~= nat_text(m));
    } else {
        lemma_nat_text_digits(v as nat);
        let s = int_text(v as int);
        assert(s[0] != '-' && s[0] != '+') by {
            assert('0' <= s[0] <= '9');
        }
    }
}

/// `s.parse::<i64>().unwrap_or(dflt)`.
pub fn parse_i64_or(s: &str, dflt: i64) -> (r: i64)
    ensures
        r == match parse_in(s@, i64::MIN as int, i64::MAX as int) {
            Some(v) => v,
            None => dflt as int,
        },
{
    match parse_i64(s) {
        Some(v) => v,
        None => dflt,
    }
}

/// `s.parse::<i32>().unwrap_or(dflt)`.
pub fn parse_i32_or(s: &str, dflt: i32) -> (r: i32)
    ensures
        r == match parse_in(s@, i32::MIN as int, i32::MAX as int) {
            Some(v) => v,
            None => dflt as int,
        },
{
    match parse_i64(s) {
        Some(v) => if i32::MIN as i64 <= v && v <= i32::MAX as i64 {
            v as i32
        } else {
            dflt
        },
        None => dflt,
    }
}

/// `s.parse::<i64>().ok()` of an optional answer.
pub fn parse_optional_i64(s: Option<&str>) -> (r: Option<i64>)
    ensures
        match s {
            Some(t) => match parse_in(t@, i64::MIN as int, i64::MAX as int) {
                Some(v) => r == Some(v as i64),
                None => r is None,
            },
            None => r is None,
        },
{
    match s {
        Some(t) => parse_i64(t),
        None => None,
    }
}

/// Whether an order asks for the way to take the meal: for orders at the
/// store (order type 1) and drive-through (`beType` 5).
pub open spec fn asks_take_way_spec(order_type: i32, be_type: i32) -> bool {
    order_type == 1 || be_type == 5
}

pub fn asks_take_way(order_type: i32, be_type: i32) -> (r: bool)
    ensures
        r == asks_take_way_spec(order_type, be_type),
{
    order_type == 1 || be_type == 5
}

/// Whether an order asks for the catering service code: for group meals
/// (`beType` 6).
pub fn asks_service_code(be_type: i32) -> (r: bool)
    ensures
        r == (be_type == 6),
{
    be_type == 6
}

/// Whether an answer confirms: `y` in either case.
pub fn confirmed(answer: &str) -> (r: bool)
    ensures
        r == (answer@ == "y"@ || answer@ == "Y"@),
{
    str_eq(answer, "y") || str_eq(answer, "Y")
}

/// An answer, or `dflt` where it is empty.
pub fn answer_or(answer: &str, dflt: &str) -> (r: String)
    ensures
        r@ == if answer@.len() == 0 { dflt@ } else { answer@ },
{
    if answer.is_empty() {
        dflt.to_owned()
    } else {
        answer.to_owned()
    }
}

} // verus!
