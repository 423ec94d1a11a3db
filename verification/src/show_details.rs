//! Renderings of single records: points account, server time, points-mall
//! product, exchange and order, the activity calendar and nutrition facts.
use vstd::prelude::*;
use crate::json::{Json, JVal, jvs};
use crate::render::{cells, rows_view, table_text, render_table};
use crate::show::{
    data_of, text_or, int_or, list_or_empty, text_at, int_at, list_at, rule, push_rule, prefixed_lines,
    push_prefixed_lines, concat, lemma_concat_push,
};
use crate::show::{data_ref, push_text_or};
use crate::text::{
    int_text, i64_text, views, chars_of, string_of, split_trimmed, split_trimmed_bounds, bounds_hold, find_char,
    find_seq, find_spec, index_of, split_on, split_bounds, lemma_split_nonempty,
};

verus! {

// ---- points account ----

/// The rendering of the points account: available (with the currency),
/// accumulated, used, expired, expiring this month and frozen points.
pub open spec fn account_text(val: JVal) -> Seq<char> {
    let d = data_of(val);
    "\n👤 我的账户\n"@ + rule(40) + "\n"@
        + "  可用积分:    "@ + text_or(d, "availablePoint"@, "0"@) + " "@ + text_or(d, "currency"@, "积分"@) + "\n"@
        + "  累计积分:    "@ + text_or(d, "accumulativePoint"@, "0"@) + "\n"@
        + "  已使用:      "@ + text_or(d, "usedPoint"@, "0"@) + "\n"@
        + "  已过期:      "@ + text_or(d, "expiredPoint"@, "0"@) + "\n"@
        + "  本月将过期:  "@ + text_or(d, "currentMouthExpirePoint"@, "0"@) + "\n"@
        + "  冻结中:      "@ + text_or(d, "frozenPoint"@, "0"@) + "\n"@
        + "\n"@
}

#[verifier::rlimit(40)]
pub fn format_account(val: &Json) -> (r: String)
    ensures
        r@ == account_text(val@),
{
    let null = Json::Null;
    let d = data_ref(val, &null);
    let mut out = String::new();
    out.append("\n👤 我的账户\n");
    push_rule(&mut out, 40);
    out.append("\n");
    out.append("  可用积分:    ");
    push_text_or(&mut out, d, "availablePoint", "0");
    out.append(" ");
    push_text_or(&mut out, d, "currency", "积分");
    out.append("\n");
    out.append("  累计积分:    ");
    push_text_or(&mut out, d, "accumulativePoint", "0");
    out.append("\n");
    out.append("  已使用:      ");
    push_text_or(&mut out, d, "usedPoint", "0");
    out.append("\n");
    out.append("  已过期:      ");
    push_text_or(&mut out, d, "expiredPoint", "0");
    out.append("\n");
    out.append("  本月将过期:  ");
    push_text_or(&mut out, d, "currentMouthExpirePoint", "0");
    out.append("\n");
    out.append("  冻结中:      ");
    push_text_or(&mut out, d, "frozenPoint", "0");
    out.append("\n");
    out.append("\n");
    assert(out@ =~= account_text(val@));
    out
}

// ---- server time ----

/// The rendering of the server time: formatted time, weekday and time zone.
pub open spec fn time_text(val: JVal) -> Seq<char> {
    let d = data_of(val);
    "\n🕐 当前时间: "@ + text_or(d, "formatted"@, "-"@) + " "@ + text_or(d, "dayOfWeek"@, "-"@) + " ("@ + text_or(
        d,
        "timezone"@,
        "-"@,
    ) + ")\n\n"@
}

pub fn format_time(val: &Json) -> (r: String)
    ensures
        r@ == time_text(val@),
{
    let null = Json::Null;
    let d = data_ref(val, &null);
    let mut out = "\n🕐 当前时间: ".to_owned();
    push_text_or(&mut out, d, "formatted", "-");
    out.append(" ");
    push_text_or(&mut out, d, "dayOfWeek", "-");
    out.append(" (");
    push_text_or(&mut out, d, "timezone", "-");
    out.append(")\n\n");
    assert(out@ =~= time_text(val@));
    out
}

// ---- points-mall product ----

/// The rendering of a points-mall product: name, points and sku id, then
/// the notes and details where they are not empty.
pub open spec fn mall_detail_text(val: JVal) -> Seq<char> {
    let d = data_of(val);
    let note = text_or(d, "note"@, ""@);
    let detail = text_or(d, "detail"@, ""@);
    "\n🎁 商品详情\n"@ + rule(50) + "\n"@
        + "  名称: "@ + text_or(d, "spuName"@, "-"@) + "\n"@
        + "  所需积分: "@ + text_or(d, "points"@, "-"@) + "\n"@
        + "  skuId: "@ + int_text(int_or(d, "skuId"@, 0)) + "\n"@
        + (if note.len() > 0 { "  须知: "@ + note + "\n"@ } else { Seq::empty() })
        + (if detail.len() > 0 { "  详情: "@ + detail + "\n"@ } else { Seq::empty() })
        + "\n"@
}

#[verifier::rlimit(40)]
pub fn format_mall_detail(val: &Json) -> (r: String)
    ensures
        r@ == mall_detail_text(val@),
{
    let null = Json::Null;
    let d = data_ref(val, &null);
    let note = text_at(d, "note", "");
    let detail = text_at(d, "detail", "");
    let mut out = String::new();
    out.append("\n🎁 商品详情\n");
    push_rule(&mut out, 50);
    out.append("\n");
    out.append("  名称: ");
    push_text_or(&mut out, d, "spuName", "-");
    out.append("\n");
    out.append("  所需积分: ");
    push_text_or(&mut out, d, "points", "-");
    out.append("\n");
    out.append("  skuId: ");
    let sku = i64_text(int_at(d, "skuId", 0));
    out.append(sku.as_str());
    out.append("\n");
    if !note.as_str().is_empty() {
        out.append("  须知: ");
        out.append(note.as_str());
        out.append("\n");
    }
    if !detail.as_str().is_empty() {
        out.append("  详情: ");
        out.append(detail.as_str());
        out.append("\n");
    }
    out.append("\n");
    assert(out@ =~= mall_detail_text(val@));
    out
}

// ---- points-mall exchange ----

/// The rendering of a points exchange: the order number, or the exchange
/// result, or plain success.
pub open spec fn mall_order_text(val: JVal) -> Seq<char> {
    let d = data_of(val);
    match d.str_at("orderNo"@) {
        Some(no) => "\n✅ 兑换成功！订单号: "@ + no + "\n\n"@,
        None => match d.str_at("exchangeResult"@) {
            Some(res) => "\n✅ 兑换结果: "@ + res + "\n\n"@,
            None => "\n✅ 操作成功\n\n"@,
        },
    }
}

pub fn format_mall_order(val: &Json) -> (r: String)
    ensures
        r@ == mall_order_text(val@),
{
    let null = Json::Null;
    let d = data_ref(val, &null);
    match d.get_str("orderNo") {
        Some(no) => {
            let mut out = "\n✅ 兑换成功！订单号: ".to_owned();
            out.append(no.as_str());
            out.append("\n\n");
            out
        },
        None => match d.get_str("exchangeResult") {
            Some(res) => {
                let mut out = "\n✅ 兑换结果: ".to_owned();
                out.append(res.as_str());
                out.append("\n\n");
                out
            },
            None => "\n✅ 操作成功\n\n".to_owned(),
        },
    }
}

// ---- points-mall order detail ----

/// The line of an ordered points-mall good, with its sku name where that
/// differs from the product name.
pub open spec fn mall_good_line(g: JVal) -> Seq<char> {
    let name = text_or(g, "spuName"@, "-"@);
    let sku = text_or(g, "skuName"@, ""@);
    let count = int_text(int_or(g, "count"@, 0));
    let points = text_or(g, "points"@, "0"@);
    if sku.len() == 0 || sku == name {
        "     • "@ + name + " x"@ + count + " ("@ + points + "积分)\n"@
    } else {
        "     • "@ + name + " ("@ + sku + ") x"@ + count + " ("@ + points + "积分)\n"@
    }
}

/// The head of a points-mall order detail: id, status, remark, payment,
/// time and service phone.
pub open spec fn mall_order_head_text(d: JVal) -> Seq<char> {
    let sub = text_or(d, "orderStatusSubTitle"@, ""@);
    "\n📋 商城订单详情\n"@ + rule(50) + "\n"@
        + "  订单号:   "@ + text_or(d, "orderId"@, "-"@) + "\n"@
        + "  状态:     "@ + text_or(d, "orderStatusTitle"@, "-"@) + "\n"@
        + (if sub.len() > 0 { "  备注:     "@ + sub + "\n"@ } else { Seq::empty() })
        + "  支付方式: "@ + text_or(d, "payChannelLabel"@, "-"@) + "\n"@
        + "  下单时间: "@ + text_or(d, "createTime"@, "-"@) + "\n"@
        + "  客服电话: "@ + text_or(d, "customerServicePhone"@, "-"@) + "\n"@
}

/// The goods of a points-mall order, where it has any.
pub open spec fn mall_goods_text(d: JVal) -> Seq<char> {
    let goods = list_or_empty(d, "goods"@);
    if goods.len() > 0 {
        "\n  🎁 商品:\n"@ + concat(Seq::new(goods.len(), |k: int| mall_good_line(goods[k])))
    } else {
        Seq::empty()
    }
}

/// The shipping address of a points-mall order, where it has one.
pub open spec fn mall_address_text(d: JVal) -> Seq<char> {
    match d.get("address"@) {
        Some(a) => "\n  📍 收货地址: "@ + text_or(a, "name"@, "-"@) + " "@ + text_or(a, "mobile"@, "-"@) + " "@
            + text_or(a, "fullAddress"@, "-"@) + "\n"@,
        None => Seq::empty(),
    }
}

/// The logistics of a points-mall order, where it has them.
pub open spec fn mall_logistics_text(d: JVal) -> Seq<char> {
    match d.get("logistics"@) {
        Some(l) => "\n  🚚 物流: "@ + text_or(l, "company"@, "-"@) + " "@ + text_or(l, "logisticsNo"@, "-"@) + "\n"@,
        None => Seq::empty(),
    }
}

/// The rendering of a points-mall order: its head, the goods, the shipping
/// address and the logistics, each where present.
pub open spec fn mall_order_detail_text(val: JVal) -> Seq<char> {
    let d = data_of(val);
    mall_order_head_text(d) + mall_goods_text(d) + mall_address_text(d) + mall_logistics_text(d) + "\n"@
}

#[verifier::rlimit(40)]
fn mall_order_head(d: &Json) -> (r: String)
    ensures
        r@ == mall_order_head_text(d@),
{
    let sub = text_at(d, "orderStatusSubTitle", "");
    let mut out = String::new();
    out.append("\n📋 商城订单详情\n");
    push_rule(&mut out, 50);
    out.append("\n");
    out.append("  订单号:   ");
    push_text_or(&mut out, d, "orderId", "-");
    out.append("\n");
    out.append("  状态:     ");
    push_text_or(&mut out, d, "orderStatusTitle", "-");
    out.append("\n");
    if !sub.as_str().is_empty() {
        out.append("  备注:     ");
        out.append(sub.as_str());
        out.append("\n");
    }
    out.append("  支付方式: ");
    push_text_or(&mut out, d, "payChannelLabel", "-");
    out.append("\n");
    out.append("  下单时间: ");
    push_text_or(&mut out, d, "createTime", "-");
    out.append("\n");
    out.append("  客服电话: ");
    push_text_or(&mut out, d, "customerServicePhone", "-");
    out.append("\n");
    assert(out@ =~= mall_order_head_text(d@));
    out
}

#[verifier::rlimit(40)]
fn mall_good(g: &Json) -> (r: String)
    ensures
        r@ == mall_good_line(g@),
{
    let name = text_at(g, "spuName", "-");
    let sku = text_at(g, "skuName", "");
    let count = i64_text(int_at(g, "count", 0));
    let points = text_at(g, "points", "0");
    let mut out = "     • ".to_owned();
    out.append(name.as_str());
    if sku.as_str().is_empty() || sku == name {
        out.append(" x");
    } else {
        out.append(" (");
        out.append(sku.as_str());
        out.append(") x");
    }
    out.append(count.as_str());
    out.append(" (");
    out.append(points.as_str());
    out.append("积分)\n");
    assert(out@ =~= mall_good_line(g@));
    out
}

fn mall_goods(goods: &Vec<Json>) -> (r: String)
    ensures
        r@ == concat(Seq::new(goods@.len(), |k: int| mall_good_line(jvs(goods@)[k]))),
{
    let mut out = String::new();
    let mut k: usize = 0;
    assert(out@ =~= concat(Seq::new(0, |j: int| mall_good_line(goods@[j]@))));
    while k < goods.len()
        invariant
            k <= goods@.len(),
            out@ == concat(Seq::new(k as nat, |j: int| mall_good_line(goods@[j]@))),
        decreases goods@.len() - k,
    {
        let line = mall_good(&goods[k]);
        out.append(line.as_str());
        proof {
            let f = |j: int| mall_good_line(goods@[j]@);
            assert(Seq::new((k + 1) as nat, f) =~= Seq::new(k as nat, f).push(f(k as int)));
            lemma_concat_push(Seq::new(k as nat, f), f(k as int));
        }
        k += 1;
    }
    assert(Seq::new(goods@.len(), |j: int| mall_good_line(goods@[j]@)) =~= Seq::new(goods@.len(), |j: int| mall_good_line(jvs(goods@)[j])));
    out
}

fn mall_address(d: &Json) -> (r: String)
    ensures
        r@ == mall_address_text(d@),
{
    let mut out = String::new();
    match d.get("address") {
        Some(a) => {
            out.append("\n  📍 收货地址: ");
            push_text_or(&mut out, a, "name", "-");
            out.append(" ");
            push_text_or(&mut out, a, "mobile", "-");
            out.append(" ");
            push_text_or(&mut out, a, "fullAddress", "-");
            out.append("\n");
            assert(out@ =~= mall_address_text(d@));
        },
        None => {
            assert(out@ =~= mall_address_text(d@));
        },
    }
    out
}

fn mall_logistics(d: &Json) -> (r: String)
    ensures
        r@ == mall_logistics_text(d@),
{
    let mut out = String::new();
    match d.get("logistics") {
        Some(l) => {
            out.append("\n  🚚 物流: ");
            push_text_or(&mut out, l, "company", "-");
            out.append(" ");
            push_text_or(&mut out, l, "logisticsNo", "-");
            out.append("\n");
            assert(out@ =~= mall_logistics_text(d@));
        },
        None => {
            assert(out@ =~= mall_logistics_text(d@));
        },
    }
    out
}

pub fn format_mall_order_detail(val: &Json) -> (r: String)
    ensures
        r@ == mall_order_detail_text(val@),
{
    let null = Json::Null;
    let d = data_ref(val, &null);
    let mut out = mall_order_head(d);
    let empty: Vec<Json> = Vec::new();
    let goods = list_at(d, "goods", &empty);
    let mut part = String::new();
    if goods.len() > 0 {
        part.append("\n  🎁 商品:\n");
        let lines = mall_goods(goods);
        part.append(lines.as_str());
    }
    assert(part@ =~= mall_goods_text(d@));
    out.append(part.as_str());
    let addr = mall_address(d);
    out.append(addr.as_str());
    let logi = mall_logistics(d);
    out.append(logi.as_str());
    out.append("\n");
    out
}

// ---- activity calendar ----

/// The string member `key`, where it is not empty; otherwise the member
/// `fallback` of the `articleDto` object, or `dflt`.
pub open spec fn text_or_article(e: JVal, key: Seq<char>, fallback: Seq<char>, dflt: Seq<char>) -> Seq<char> {
    match e.str_at(key) {
        Some(t) => if t.len() > 0 {
            t
        } else {
            text_or(e.field("articleDto"@), fallback, dflt)
        },
        None => text_or(e.field("articleDto"@), fallback, dflt),
    }
}

/// An event of the calendar: a bullet with its title, then each nonempty
/// line of its content, trimmed and indented.
pub open spec fn event_text(e: JVal) -> Seq<char> {
    "     • "@ + text_or_article(e, "activityTitle"@, "title"@, "-"@) + "\n"@ + prefixed_lines(
        "       "@,
        split_trimmed(text_or_article(e, "activitySubTitle"@, "content"@, ""@), '\n'),
    )
}

/// A day of the calendar: its date, then its events.
pub open spec fn day_text(day: JVal) -> Seq<char> {
    "\n  📆 "@ + text_or(day, "dateText"@, "-"@) + "\n"@ + match day.arr_at("events"@) {
        Some(es) => concat(Seq::new(es.len(), |k: int| event_text(es[k]))),
        None => Seq::empty(),
    }
}

/// The rendering of the activity calendar: each day with its events, or a
/// note that there is none.
pub open spec fn calendar_text(val: JVal) -> Seq<char> {
    let days = list_or_empty(data_of(val), "dailyList"@);
    "\n📅 活动日历\n"@ + rule(50) + "\n"@ + if days.len() == 0 {
        "  (暂无活动)\n\n"@
    } else {
        concat(Seq::new(days.len(), |k: int| day_text(days[k]))) + "\n"@
    }
}

/// The nonempty lines of `s`, trimmed.
pub fn trimmed_lines(s: &str) -> (r: Vec<String>)
    ensures
        views(r@) == split_trimmed(s@, '\n'),
{
    let cs = chars_of(s);
    let bounds = split_trimmed_bounds(&cs, '\n');
    let mut out: Vec<String> = Vec::new();
    let mut k: usize = 0;
    while k < bounds.len()
        invariant
            k <= bounds@.len(),
            cs@ == s@,
            bounds@.len() == split_trimmed(cs@, '\n').len(),
            forall|j: int| 0 <= j < bounds@.len() ==> bounds_hold(cs@, #[trigger] bounds@[j], split_trimmed(cs@, '\n')[j]),
            views(out@) == split_trimmed(cs@, '\n').take(k as int),
        decreases bounds@.len() - k,
    {
        let (lo, hi) = bounds[k];
        assert(bounds_hold(cs@, bounds@[k as int], split_trimmed(cs@, '\n')[k as int]));
        let line = string_of(&cs, lo, hi);
        let ghost before = out@;
        out.push(line);
        assert(views(out@) =~= views(before).push(line@));
        assert(views(out@) =~= split_trimmed(cs@, '\n').take(k + 1));
        k += 1;
    }
    assert(split_trimmed(cs@, '\n').take(bounds@.len() as int) =~= split_trimmed(cs@, '\n'));
    out
}

fn article_text(e: &Json, key: &str, fallback: &str, dflt: &str) -> (r: String)
    ensures
        r@ == text_or_article(e@, key@, fallback@, dflt@),
{
    match e.get_str(key) {
        Some(t) => if !t.as_str().is_empty() {
            return t.clone();
        },
        None => {},
    }
    let null = Json::Null;
    let a: &Json = match e.get("articleDto") {
        Some(a) => a,
        None => &null,
    };
    text_at(a, fallback, dflt)
}

fn event_block(e: &Json) -> (r: String)
    ensures
        r@ == event_text(e@),
{
    let mut out = "     • ".to_owned();
    let title = article_text(e, "activityTitle", "title", "-");
    out.append(title.as_str());
    out.append("\n");
    let content = article_text(e, "activitySubTitle", "content", "");
    let lines = trimmed_lines(content.as_str());
    push_prefixed_lines(&mut out, "       ", &lines);
    out
}

fn day_block(day: &Json) -> (r: String)
    ensures
        r@ == day_text(day@),
{
    let mut out = "\n  📆 ".to_owned();
    let date = text_at(day, "dateText", "-");
    out.append(date.as_str());
    out.append("\n");
    let ghost head = out@;
    match day.get_array("events") {
        Some(es) => {
            let mut k: usize = 0;
            assert(out@ =~= head + concat(Seq::new(0, |j: int| event_text(es@[j]@))));
            while k < es.len()
                invariant
                    k <= es@.len(),
                    out@ == head + concat(Seq::new(k as nat, |j: int| event_text(es@[j]@))),
                decreases es@.len() - k,
            {
                let block = event_block(&es[k]);
                out.append(block.as_str());
                proof {
                    let f = |j: int| event_text(es@[j]@);
                    assert(Seq::new((k + 1) as nat, f) =~= Seq::new(k as nat, f).push(f(k as int)));
                    lemma_concat_push(Seq::new(k as nat, f), f(k as int));
                }
                k += 1;
            }
            assert(Seq::new(es@.len(), |j: int| event_text(es@[j]@)) =~= Seq::new(es@.len(), |j: int| event_text(jvs(es@)[j])));
        },
        None => {},
    }
    out
}

pub fn format_calendar(val: &Json) -> (r: String)
    ensures
        r@ == calendar_text(val@),
{
    let null = Json::Null;
    let d = data_ref(val, &null);
    let empty: Vec<Json> = Vec::new();
    let days = list_at(d, "dailyList", &empty);
    let mut out = String::new();
    out.append("\n📅 活动日历\n");
    push_rule(&mut out, 50);
    out.append("\n");
    if days.len() == 0 {
        out.append("  (暂无活动)\n\n");
        return out;
    }
    let ghost head = out@;
    let mut k: usize = 0;
    assert(out@ =~= head + concat(Seq::new(0, |j: int| day_text(days@[j]@))));
    while k < days.len()
        invariant
            k <= days@.len(),
            out@ == head + concat(Seq::new(k as nat, |j: int| day_text(days@[j]@))),
        decreases days@.len() - k,
    {
        let block = day_block(&days[k]);
        out.append(block.as_str());
        proof {
            let f = |j: int| day_text(days@[j]@);
            assert(Seq::new((k + 1) as nat, f) =~= Seq::new(k as nat, f).push(f(k as int)));
            lemma_concat_push(Seq::new(k as nat, f), f(k as int));
        }
        k += 1;
    }
    out.append("\n");
    assert(Seq::new(days@.len(), |j: int| day_text(days@[j]@)) =~= Seq::new(days@.len(), |j: int| day_text(jvs(days@)[j])));
    out
}

// ---- nutrition facts ----

/// The end of the header of a nutrition table.
pub open spec fn header_end_mark() -> Seq<char> {
    seq!['}', ':']
}

/// Whether a nutrition text can be cut at its header: where it has both a
/// `{` and a `}:`, the `}:` comes after the `{`.
pub open spec fn nutrition_cuttable(s: Seq<char>) -> bool {
    match (index_of(s, '{'), find_spec(s, header_end_mark())) {
        (Some(a), Some(b)) => a + 1 <= b,
        _ => true,
    }
}

/// The rows of a nutrition table: the fields of the header between `{` and
/// `}:`, then the comma-separated values of each nonempty trimmed line after it.
pub open spec fn nutrition_rows(s: Seq<char>, a: int, b: int) -> Seq<Seq<Seq<char>>> {
    let lines = split_trimmed(s.skip(b + 2), '\n');
    seq![split_on(s.subrange(a + 1, b), ',')] + Seq::new(lines.len(), |k: int| split_on(lines[k], ','))
}

/// The rendering of nutrition facts given as `[count]{field,...}:` and lines
/// of comma-separated values: a table, or a note that the text cannot be read.
pub open spec fn nutrition_text(s: Seq<char>) -> Seq<char> {
    "\n🥗 餐品营养信息\n"@ + match index_of(s, '{') {
        None => "  (无法解析数据)\n\n"@,
        Some(a) => match find_spec(s, header_end_mark()) {
            None => "  (无法解析数据)\n\n"@,
            Some(b) => table_text(nutrition_rows(s, a, b)) + "\n"@,
        },
    }
}

/// The pieces of `cs[lo..hi]` split on `,`, as strings.
fn comma_cells(cs: &Vec<char>, lo: usize, hi: usize) -> (r: Vec<String>)
    requires
        lo <= hi <= cs@.len(),
    ensures
        cells(r) == split_on(cs@.subrange(lo as int, hi as int), ','),
{
    let pieces = split_bounds(cs, lo, hi, ',');
    let ghost all = split_on(cs@.subrange(lo as int, hi as int), ',');
    let mut out: Vec<String> = Vec::new();
    let mut k: usize = 0;
    while k < pieces.len()
        invariant
            k <= pieces@.len(),
            lo <= hi <= cs@.len(),
            pieces@.len() == all.len(),
            all == split_on(cs@.subrange(lo as int, hi as int), ','),
            forall|j: int|
                0 <= j < pieces@.len() ==> lo <= #[trigger] pieces@[j].0 <= pieces@[j].1 <= hi && cs@.subrange(
                    pieces@[j].0 as int,
                    pieces@[j].1 as int,
                ) == all[j],
            cells(out) == all.take(k as int),
        decreases pieces@.len() - k,
    {
        let (a, b) = pieces[k];
        assert(lo <= pieces@[k as int].0 <= pieces@[k as int].1 <= hi);
        let piece = string_of(cs, a, b);
        let ghost before = out;
        out.push(piece);
        assert(cells(out) =~= cells(before).push(piece@));
        assert(cells(out) =~= all.take(k + 1));
        k += 1;
    }
    assert(all.take(pieces@.len() as int) =~= all);
    out
}

/// The rendering of nutrition facts (see [`nutrition_text`]).
#[verifier::rlimit(40)]
pub fn format_nutrition(data_str: &str) -> (r: String)
    requires
        nutrition_cuttable(data_str@),
    ensures
        r@ == nutrition_text(data_str@),
{
    let cs = chars_of(data_str);
    let n = cs.len();
    assert(cs@.subrange(0, n as int) =~= cs@);
    let mut out = String::new();
    out.append("\n🥗 餐品营养信息\n");
    let a = match find_char(&cs, 0, n, '{') {
        Some(a) => a,
        None => {
            out.append("  (无法解析数据)\n\n");
            return out;
        },
    };
    let mark: Vec<char> = vec!['}', ':'];
    assert(mark@ =~= header_end_mark());
    let b = match find_seq(&cs, &mark) {
        Some(b) => b,
        None => {
            out.append("  (无法解析数据)\n\n");
            return out;
        },
    };
    let mut rows: Vec<Vec<String>> = Vec::new();
    rows.push(comma_cells(&cs, a + 1, b));
    let rest = crate::text::sub_chars(&cs, b + 2, n);
    assert(rest@ =~= data_str@.skip(b + 2));
    let line_bounds = split_trimmed_bounds(&rest, '\n');
    let ghost lines = split_trimmed(rest@, '\n');
    let ghost hdr = split_on(data_str@.subrange(a + 1, b as int), ',');
    let mut k: usize = 0;
    assert(rows_view(rows@) =~= seq![hdr] + Seq::new(0, |j: int| split_on(lines[j], ',')));
    while k < line_bounds.len()
        invariant
            k <= line_bounds@.len(),
            line_bounds@.len() == lines.len(),
            lines == split_trimmed(rest@, '\n'),
            forall|j: int| 0 <= j < line_bounds@.len() ==> bounds_hold(rest@, #[trigger] line_bounds@[j], lines[j]),
            rows_view(rows@) == seq![hdr] + Seq::new(k as nat, |j: int| split_on(lines[j], ',')),
        decreases line_bounds@.len() - k,
    {
        let (lo, hi) = line_bounds[k];
        assert(bounds_hold(rest@, line_bounds@[k as int], lines[k as int]));
        let row = comma_cells(&rest, lo, hi);
        let ghost before = rows@;
        rows.push(row);
        assert(rows_view(rows@) =~= rows_view(before).push(cells(row)));
        assert(rows_view(rows@) =~= seq![hdr] + Seq::new((k + 1) as nat, |j: int| split_on(lines[j], ',')));
        k += 1;
    }
    assert(rows_view(rows@) =~= nutrition_rows(data_str@, a as int, b as int));
    let table = render_table(rows);
    out.append(table.as_str());
    out.append("\n");
    out
}

} // verus!
