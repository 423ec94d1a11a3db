//! Choosing the rendering of a tool response by the members of its `data`,
//! and the success / failure line of a bare outcome.
use vstd::prelude::*;
use crate::json::{Json, JVal};
use crate::show::{data_ref, data_of, text_or, int_or, flag, text_at, int_at, flag_at};
use crate::show_tables::{
    menu_text, format_menu, addresses_text, format_addresses, nearby_text, format_nearby,
    mall_products_text, format_mall_products, mall_orders_text, format_mall_orders, coupons_text, format_coupons,
    catering_text, format_catering,
};
use crate::show_orders::{QrMode, order_text, format_order, order_amounts_spec, price_text, format_price, price_computable, goods_subtotal};
use crate::show_details::{
    account_text, format_account, time_text, format_time, mall_detail_text, format_mall_detail, mall_order_text,
    format_mall_order, mall_order_detail_text, format_mall_order_detail, calendar_text, format_calendar,
    nutrition_text, format_nutrition, nutrition_cuttable, header_end_mark,
};
use crate::show_meal::{meal_detail_text, format_meal_detail};
use crate::text::{views, int_text, push_i64, chars_of, find_seq, find_spec, find_char, index_of};

verus! {

/// How responses are rendered.
#[derive(Debug, Clone)]
pub struct FormatOptions {
    /// Whether the modification groups of a meal's choices are listed.
    pub show_mods: bool,
    /// Whether and how the payment QR code of an order is given.
    pub qr: QrMode,
}

impl FormatOptions {
    /// The default: modification groups are not listed, and an order shows
    /// its payment link without a QR code.
    pub fn new() -> (r: FormatOptions)
        ensures
            !r.show_mods,
            r.qr == QrMode::Off,
    {
        FormatOptions { show_mods: false, qr: QrMode::Off }
    }
}

/// Sets whether the modification groups of a meal's choices are listed.
pub fn set_show_mods(options: &mut FormatOptions, v: bool)
    ensures
        final(options).show_mods == v,
        final(options).qr == old(options).qr,
{
    options.show_mods = v;
}

/// Sets whether and how the payment QR code of an order is given.
pub fn set_qr_mode(options: &mut FormatOptions, mode: QrMode)
    ensures
        final(options).qr == mode,
        final(options).show_mods == old(options).show_mods,
{
    options.qr = mode;
}

/// The kinds of response that have a rendering of their own.
#[derive(PartialEq, Eq, Structural, Clone, Copy, Debug)]
pub enum ResponseKind {
    Menu,
    Addresses,
    MallOrderDetail,
    Order,
    Price,
    Nearby,
    MallProducts,
    MallOrders,
    Coupons,
    Account,
    Time,
    MallDetail,
    MallOrder,
    Calendar,
    Catering,
    MealDetail,
    Nutrition,
    Outcome,
    Raw,
}

/// Whether a text mentions nutrition facts (`energyKj` or `protein`).
pub open spec fn mentions_nutrition(s: Seq<char>) -> bool {
    find_spec(s, "energyKj"@) is Some || find_spec(s, "protein"@) is Some
}

/// The kind of a non-empty `data` list, by the members of its first item.
pub open spec fn list_kind(first: JVal) -> ResponseKind {
    if first.has("storeCode"@) {
        ResponseKind::Nearby
    } else if first.has("spuId"@) || first.has("spuName"@) {
        ResponseKind::MallProducts
    } else if first.has("list"@) {
        ResponseKind::MallOrders
    } else {
        ResponseKind::Coupons
    }
}

/// The kind of a `data` member that is not a non-empty list, by the members
/// it has, tested in this order.
pub open spec fn record_kind(d: JVal) -> Option<ResponseKind> {
    if d.has("coupons"@) {
        Some(ResponseKind::Coupons)
    } else if d.has("availablePoint"@) {
        Some(ResponseKind::Account)
    } else if d.has("timestamp"@) {
        Some(ResponseKind::Time)
    } else if d.has("detail"@) && d.has("spuName"@) {
        Some(ResponseKind::MallDetail)
    } else if d.has("exchangeResult"@) || d.has("orderNo"@) {
        Some(ResponseKind::MallOrder)
    } else if d.has("dailyList"@) {
        Some(ResponseKind::Calendar)
    } else if d.has("mealAssistanceItems"@) {
        Some(ResponseKind::Catering)
    } else if d.has("rounds"@) {
        Some(ResponseKind::MealDetail)
    } else {
        match d.as_str() {
            Some(s) => if mentions_nutrition(s) {
                Some(ResponseKind::Nutrition)
            } else {
                None
            },
            None => None,
        }
    }
}

/// The kind of a `data` member, by the members it has, tested in this order.
pub open spec fn data_kind(d: JVal) -> Option<ResponseKind> {
    if d.has("categories"@) && d.has("meals"@) {
        Some(ResponseKind::Menu)
    } else if d.has("addresses"@) {
        Some(ResponseKind::Addresses)
    } else if d.has("goods"@) && d.has("orderStatusTitle"@) {
        Some(ResponseKind::MallOrderDetail)
    } else if d.has("orderStatus"@) || d.has("orderId"@) {
        Some(ResponseKind::Order)
    } else if d.has("productList"@) {
        Some(ResponseKind::Price)
    } else {
        match d.as_arr() {
            Some(a) => if a.len() > 0 {
                Some(list_kind(a[0]))
            } else {
                record_kind(d)
            },
            None => record_kind(d),
        }
    }
}

/// The kind of a response: that of its `data` where it has one of its own,
/// else an outcome where it has `success`, `code` and `message`, else raw.
pub open spec fn kind_of(val: JVal) -> ResponseKind {
    match (if val.has("data"@) { data_kind(data_of(val)) } else { None }) {
        Some(k) => k,
        None => if val.has("success"@) && val.has("code"@) && val.has("message"@) {
            ResponseKind::Outcome
        } else {
            ResponseKind::Raw
        },
    }
}

/// The line of a bare outcome: success or failure, the code and the message.
pub open spec fn outcome_text(val: JVal) -> Seq<char> {
    (if flag(val, "success"@) { "✅ 成功 (code: "@ } else { "❌ 失败 (code: "@ }) + int_text(
        int_or(val, "code"@, 0),
    ) + "): "@ + text_or(val, "message"@, ""@)
}

/// Whether a response can be rendered: a price calculation whose goods
/// subtotal is an `i64`, nutrition facts whose header can be cut out, and
/// every other kind.
pub open spec fn renderable(val: JVal) -> bool {
    match kind_of(val) {
        ResponseKind::Price => price_computable(val),
        ResponseKind::Nutrition => match data_of(val).as_str() {
            Some(s) => nutrition_cuttable(s),
            None => true,
        },
        _ => true,
    }
}

/// The rendering of a response, `None` where it is shown as pretty-printed
/// JSON; `shown` holds the money texts of the order amounts.
pub open spec fn rendering(val: JVal, show_mods: bool, qr: QrMode, shown: Seq<Seq<char>>) -> Option<Seq<char>> {
    match kind_of(val) {
        ResponseKind::Menu => Some(menu_text(val)),
        ResponseKind::Addresses => Some(addresses_text(val)),
        ResponseKind::MallOrderDetail => Some(mall_order_detail_text(val)),
        ResponseKind::Order => Some(order_text(val, shown, qr)),
        ResponseKind::Price => Some(price_text(val)),
        ResponseKind::Nearby => Some(nearby_text(val)),
        ResponseKind::MallProducts => Some(mall_products_text(val)),
        ResponseKind::MallOrders => Some(mall_orders_text(val)),
        ResponseKind::Coupons => Some(coupons_text(val)),
        ResponseKind::Account => Some(account_text(val)),
        ResponseKind::Time => Some(time_text(val)),
        ResponseKind::MallDetail => Some(mall_detail_text(val)),
        ResponseKind::MallOrder => Some(mall_order_text(val)),
        ResponseKind::Calendar => Some(calendar_text(val)),
        ResponseKind::Catering => Some(catering_text(val)),
        ResponseKind::MealDetail => Some(meal_detail_text(val, show_mods)),
        ResponseKind::Nutrition => Some(
            nutrition_text(
                match data_of(val).as_str() {
                    Some(s) => s,
                    None => Seq::empty(),
                },
            ),
        ),
        ResponseKind::Outcome => Some(outcome_text(val)),
        ResponseKind::Raw => None,
    }
}

fn contains_text(s: &str, pat: &str) -> (r: bool)
    ensures
        r == (find_spec(s@, pat@) is Some),
{
    let cs = chars_of(s);
    let ps = chars_of(pat);
    find_seq(&cs, &ps).is_some()
}

fn record_kind_of(d: &Json) -> (r: Option<ResponseKind>)
    ensures
        r == record_kind(d@),
{
    if d.has("coupons") {
        Some(ResponseKind::Coupons)
    } else if d.has("availablePoint") {
        Some(ResponseKind::Account)
    } else if d.has("timestamp") {
        Some(ResponseKind::Time)
    } else if d.has("detail") && d.has("spuName") {
        Some(ResponseKind::MallDetail)
    } else if d.has("exchangeResult") || d.has("orderNo") {
        Some(ResponseKind::MallOrder)
    } else if d.has("dailyList") {
        Some(ResponseKind::Calendar)
    } else if d.has("mealAssistanceItems") {
        Some(ResponseKind::Catering)
    } else if d.has("rounds") {
        Some(ResponseKind::MealDetail)
    } else {
        match d.as_str() {
            Some(s) => if contains_text(s.as_str(), "energyKj") || contains_text(s.as_str(), "protein") {
                Some(ResponseKind::Nutrition)
            } else {
                None
            },
            None => None,
        }
    }
}

fn data_kind_of(d: &Json) -> (r: Option<ResponseKind>)
    ensures
        r == data_kind(d@),
{
    if d.has("categories") && d.has("meals") {
        Some(ResponseKind::Menu)
    } else if d.has("addresses") {
        Some(ResponseKind::Addresses)
    } else if d.has("goods") && d.has("orderStatusTitle") {
        Some(ResponseKind::MallOrderDetail)
    } else if d.has("orderStatus") || d.has("orderId") {
        Some(ResponseKind::Order)
    } else if d.has("productList") {
        Some(ResponseKind::Price)
    } else {
        match d.as_array() {
            Some(a) => if a.len() > 0 {
                let first = &a[0];
                if first.has("storeCode") {
                    Some(ResponseKind::Nearby)
                } else if first.has("spuId") || first.has("spuName") {
                    Some(ResponseKind::MallProducts)
                } else if first.has("list") {
                    Some(ResponseKind::MallOrders)
                } else {
                    Some(ResponseKind::Coupons)
                }
            } else {
                record_kind_of(d)
            },
            None => record_kind_of(d),
        }
    }
}

/// The kind of a response (see [`kind_of`]).
pub fn response_kind(val: &Json) -> (r: ResponseKind)
    ensures
        r == kind_of(val@),
{
    let from_data = match val.get("data") {
        Some(d) => data_kind_of(d),
        None => None,
    };
    match from_data {
        Some(k) => k,
        None => if val.has("success") && val.has("code") && val.has("message") {
            ResponseKind::Outcome
        } else {
            ResponseKind::Raw
        },
    }
}

/// Whether a response can be rendered (see [`renderable`]).
pub fn can_render(val: &Json) -> (r: bool)
    ensures
        r == renderable(val@),
{
    let null = Json::Null;
    let d = data_ref(val, &null);
    match response_kind(val) {
        ResponseKind::Price => {
            let sub = (int_at(d, "price", 0) as i128) - (int_at(d, "deliveryPrice", 0) as i128) - (int_at(
                d,
                "packingPrice",
                0,
            ) as i128);
            i64::MIN as i128 <= sub && sub <= i64::MAX as i128
        },
        ResponseKind::Nutrition => match d.as_str() {
            Some(s) => {
                let cs = chars_of(s.as_str());
                let n = cs.len();
                assert(cs@.subrange(0, n as int) =~= cs@);
                let mark: Vec<char> = vec!['}', ':'];
                assert(mark@ =~= header_end_mark());
                match (find_char(&cs, 0, n, '{'), find_seq(&cs, &mark)) {
                    (Some(a), Some(b)) => a < b,
                    _ => true,
                }
            },
            None => true,
        },
        _ => true,
    }
}

/// The line of a bare outcome (see [`outcome_text`]).
pub fn format_outcome(val: &Json) -> (r: String)
    ensures
        r@ == outcome_text(val@),
{
    let mut out = if flag_at(val, "success") {
        "✅ 成功 (code: ".to_owned()
    } else {
        "❌ 失败 (code: ".to_owned()
    };
    push_i64(&mut out, int_at(val, "code", 0));
    out.append("): ");
    let msg = text_at(val, "message", "");
    out.append(msg.as_str());
    out
}

/// The rendering of a response (see [`rendering`]); `None` where it is shown
/// as pretty-printed JSON. `shown` holds the money texts of the amounts that
/// `order_amounts` lists, in that order.
pub fn pretty_print_json(val: &Json, options: &FormatOptions, shown: &Vec<String>) -> (r: Option<String>)
    requires
        renderable(val@),
        shown@.len() == order_amounts_spec(val@).len(),
    ensures
        match r {
            Some(t) => rendering(val@, options.show_mods, options.qr, views(shown@)) == Some(t@),
            None => rendering(val@, options.show_mods, options.qr, views(shown@)) is None,
        },
{
    match response_kind(val) {
        ResponseKind::Menu => Some(format_menu(val)),
        ResponseKind::Addresses => Some(format_addresses(val)),
        ResponseKind::MallOrderDetail => Some(format_mall_order_detail(val)),
        ResponseKind::Order => Some(format_order(val, shown, options.qr)),
        ResponseKind::Price => Some(format_price(val)),
        ResponseKind::Nearby => Some(format_nearby(val)),
        ResponseKind::MallProducts => Some(format_mall_products(val)),
        ResponseKind::MallOrders => Some(format_mall_orders(val)),
        ResponseKind::Coupons => Some(format_coupons(val)),
        ResponseKind::Account => Some(format_account(val)),
        ResponseKind::Time => Some(format_time(val)),
        ResponseKind::MallDetail => Some(format_mall_detail(val)),
        ResponseKind::MallOrder => Some(format_mall_order(val)),
        ResponseKind::Calendar => Some(format_calendar(val)),
        ResponseKind::Catering => Some(format_catering(val)),
        ResponseKind::MealDetail => Some(format_meal_detail(val, options.show_mods)),
        ResponseKind::Nutrition => {
            let null = Json::Null;
            let d = data_ref(val, &null);
            match d.as_str() {
                Some(s) => Some(format_nutrition(s.as_str())),
                None => Some(format_nutrition("")),
            }
        },
        ResponseKind::Outcome => Some(format_outcome(val)),
        ResponseKind::Raw => None,
    }
}

} // verus!
