//! Table renderings of list responses: delivery addresses, nearby stores,
//! points-mall products and orders, coupons and catering services.
use vstd::prelude::*;
use crate::json::{Json, JVal, jv, jvs};
use crate::render::{cells, rows_view, table_text, render_table};
use crate::show::{
    data_ref, data_of, text_or, int_or, flag, list_or_empty, text_at, int_at, flag_at, list_at, row4, row5, row6,
    str_items, member_texts, strings_in, texts_in, prefixed_lines, push_prefixed_lines,
};
use crate::text::{int_text, i64_text, join, join_strings, views, chars_of, push_char, find_spec, find_seq};

verus! {

// ---- delivery addresses ----

pub open spec fn address_header() -> Seq<Seq<char>> {
    seq!["联系人"@, "电话"@, "地址"@, "门店"@, "storeCode"@, "beCode"@]
}

pub open spec fn address_row(a: JVal) -> Seq<Seq<char>> {
    seq![
        text_or(a, "contactName"@, "-"@),
        text_or(a, "phone"@, "-"@),
        text_or(a, "fullAddress"@, "-"@),
        text_or(a, "storeName"@, "-"@),
        text_or(a, "storeCode"@, "-"@),
        text_or(a, "beCode"@, "-"@),
    ]
}

/// The rendering of a delivery-address list: a table of contact, phone,
/// address, store and codes, or a note that there is none.
pub open spec fn addresses_text(val: JVal) -> Seq<char> {
    let list = list_or_empty(data_of(val), "addresses"@);
    "\n📍 配送地址\n"@ + if list.len() == 0 {
        "  (暂无配送地址)\n\n"@
    } else {
        table_text(seq![address_header()] + Seq::new(list.len(), |i: int| address_row(list[i]))) + "\n"@
    }
}

fn address_cells(a: &Json) -> (r: Vec<String>)
    ensures
        cells(r) == address_row(a@),
{
    row6(
        text_at(a, "contactName", "-"),
        text_at(a, "phone", "-"),
        text_at(a, "fullAddress", "-"),
        text_at(a, "storeName", "-"),
        text_at(a, "storeCode", "-"),
        text_at(a, "beCode", "-"),
    )
}

pub fn format_addresses(val: &Json) -> (r: String)
    ensures
        r@ == addresses_text(val@),
{
    let null = Json::Null;
    let data = data_ref(val, &null);
    let empty: Vec<Json> = Vec::new();
    let list = list_at(data, "addresses", &empty);
    let mut out = String::new();
    out.append("\n📍 配送地址\n");
    if list.len() == 0 {
        out.append("  (暂无配送地址)\n\n");
        return out;
    }
    let mut rows: Vec<Vec<String>> = Vec::new();
    rows.push(
        row6(
            "联系人".to_owned(),
            "电话".to_owned(),
            "地址".to_owned(),
            "门店".to_owned(),
            "storeCode".to_owned(),
            "beCode".to_owned(),
        ),
    );
    let mut i: usize = 0;
    assert(rows_view(rows@) =~= seq![address_header()] + Seq::new(0, |k: int| address_row(list@[k]@)));
    while i < list.len()
        invariant
            i <= list@.len(),
            rows_view(rows@) == seq![address_header()] + Seq::new(i as nat, |k: int| address_row(list@[k]@)),
        decreases list@.len() - i,
    {
        let row = address_cells(&list[i]);
        let ghost before = rows@;
        rows.push(row);
        assert(rows_view(rows@) =~= rows_view(before).push(cells(row)));
        assert(rows_view(rows@) =~= seq![address_header()] + Seq::new((i + 1) as nat, |k: int| address_row(list@[k]@)));
        i += 1;
    }
    let ghost items = jvs(list@);
    assert(Seq::new(list@.len(), |k: int| address_row(list@[k]@)) =~= Seq::new(items.len(), |k: int| address_row(items[k])));
    let table = render_table(rows);
    out.append(table.as_str());
    out.append("\n");
    out
}

// ---- nearby stores ----

pub open spec fn store_header() -> Seq<Seq<char>> {
    seq!["门店编码"@, "门店名称"@, "距离"@, "地址"@]
}

pub open spec fn store_row(s: JVal) -> Seq<Seq<char>> {
    seq![
        text_or(s, "storeCode"@, "-"@),
        text_or(s, "storeName"@, "-"@),
        int_text(int_or(s, "distance"@, 0)) + "m"@,
        text_or(s, "address"@, "-"@),
    ]
}

/// The list of the `data` array of `val`, empty where `data` is no array.
pub open spec fn data_list(val: JVal) -> Seq<JVal> {
    match data_of(val).as_arr() {
        Some(a) => a,
        None => Seq::empty(),
    }
}

/// The rendering of a nearby-store list: code, name, distance in metres and
/// address, or a note that none was found.
pub open spec fn nearby_text(val: JVal) -> Seq<char> {
    let list = data_list(val);
    "\n📍 附近门店\n"@ + if list.len() == 0 {
        "  (未找到门店)\n\n"@
    } else {
        table_text(seq![store_header()] + Seq::new(list.len(), |i: int| store_row(list[i]))) + "\n"@
    }
}

/// The `data` array of `val`, or `empty`.
fn data_list_ref<'a>(val: &'a Json, null: &'a Json, empty: &'a Vec<Json>) -> (r: &'a Vec<Json>)
    requires
        null@ == JVal::Null,
        empty@.len() == 0,
    ensures
        jvs(r@) == data_list(val@),
{
    let data = data_ref(val, null);
    match data.as_array() {
        Some(a) => a,
        None => {
            assert(jvs(empty@) =~= Seq::<JVal>::empty());
            empty
        },
    }
}

fn store_cells(s: &Json) -> (r: Vec<String>)
    ensures
        cells(r) == store_row(s@),
{
    let mut dist = i64_text(int_at(s, "distance", 0));
    dist.append("m");
    row4(text_at(s, "storeCode", "-"), text_at(s, "storeName", "-"), dist, text_at(s, "address", "-"))
}

pub fn format_nearby(val: &Json) -> (r: String)
    ensures
        r@ == nearby_text(val@),
{
    let null = Json::Null;
    let empty: Vec<Json> = Vec::new();
    let list = data_list_ref(val, &null, &empty);
    let mut out = String::new();
    out.append("\n📍 附近门店\n");
    if list.len() == 0 {
        out.append("  (未找到门店)\n\n");
        return out;
    }
    let mut rows: Vec<Vec<String>> = Vec::new();
    rows.push(row4("门店编码".to_owned(), "门店名称".to_owned(), "距离".to_owned(), "地址".to_owned()));
    let mut i: usize = 0;
    assert(rows_view(rows@) =~= seq![store_header()] + Seq::new(0, |k: int| store_row(list@[k]@)));
    while i < list.len()
        invariant
            i <= list@.len(),
            rows_view(rows@) == seq![store_header()] + Seq::new(i as nat, |k: int| store_row(list@[k]@)),
        decreases list@.len() - i,
    {
        let row = store_cells(&list[i]);
        let ghost before = rows@;
        rows.push(row);
        assert(rows_view(rows@) =~= rows_view(before).push(cells(row)));
        assert(rows_view(rows@) =~= seq![store_header()] + Seq::new((i + 1) as nat, |k: int| store_row(list@[k]@)));
        i += 1;
    }
    let ghost items = jvs(list@);
    assert(Seq::new(list@.len(), |k: int| store_row(list@[k]@)) =~= Seq::new(items.len(), |k: int| store_row(items[k])));
    let table = render_table(rows);
    out.append(table.as_str());
    out.append("\n");
    out
}

// ---- points-mall products ----

pub open spec fn product_header() -> Seq<Seq<char>> {
    seq!["商品名称"@, "所需积分"@, "spuId"@, "skuId"@, "卖点"@]
}

pub open spec fn product_row(p: JVal) -> Seq<Seq<char>> {
    seq![
        text_or(p, "spuName"@, "-"@),
        text_or(p, "point"@, "-"@),
        int_text(int_or(p, "spuId"@, 0)),
        int_text(int_or(p, "skuId"@, 0)),
        text_or(p, "selling"@, ""@),
    ]
}

/// The rendering of the points-mall product list: name, points, ids and
/// selling point, or a note that there is none.
pub open spec fn mall_products_text(val: JVal) -> Seq<char> {
    let list = data_list(val);
    "\n🎁 积分商城\n"@ + if list.len() == 0 {
        "  (暂无商品)\n\n"@
    } else {
        table_text(seq![product_header()] + Seq::new(list.len(), |i: int| product_row(list[i]))) + "\n"@
    }
}

fn product_cells(p: &Json) -> (r: Vec<String>)
    ensures
        cells(r) == product_row(p@),
{
    row5(
        text_at(p, "spuName", "-"),
        text_at(p, "point", "-"),
        i64_text(int_at(p, "spuId", 0)),
        i64_text(int_at(p, "skuId", 0)),
        text_at(p, "selling", ""),
    )
}

pub fn format_mall_products(val: &Json) -> (r: String)
    ensures
        r@ == mall_products_text(val@),
{
    let null = Json::Null;
    let empty: Vec<Json> = Vec::new();
    let list = data_list_ref(val, &null, &empty);
    let mut out = String::new();
    out.append("\n🎁 积分商城\n");
    if list.len() == 0 {
        out.append("  (暂无商品)\n\n");
        return out;
    }
    let mut rows: Vec<Vec<String>> = Vec::new();
    rows.push(
        row5("商品名称".to_owned(), "所需积分".to_owned(), "spuId".to_owned(), "skuId".to_owned(), "卖点".to_owned()),
    );
    let mut i: usize = 0;
    assert(rows_view(rows@) =~= seq![product_header()] + Seq::new(0, |k: int| product_row(list@[k]@)));
    while i < list.len()
        invariant
            i <= list@.len(),
            rows_view(rows@) == seq![product_header()] + Seq::new(i as nat, |k: int| product_row(list@[k]@)),
        decreases list@.len() - i,
    {
        let row = product_cells(&list[i]);
        let ghost before = rows@;
        rows.push(row);
        assert(rows_view(rows@) =~= rows_view(before).push(cells(row)));
        assert(rows_view(rows@) =~= seq![product_header()] + Seq::new((i + 1) as nat, |k: int| product_row(list@[k]@)));
        i += 1;
    }
    let ghost items = jvs(list@);
    assert(Seq::new(list@.len(), |k: int| product_row(list@[k]@)) =~= Seq::new(items.len(), |k: int| product_row(items[k])));
    let table = render_table(rows);
    out.append(table.as_str());
    out.append("\n");
    out
}

// ---- coupons ----

/// `c.instructions[key][0].text`, `-` where any step is missing.
pub open spec fn instruction_text(c: JVal, key: Seq<char>) -> Seq<char> {
    match c.get("instructions"@) {
        Some(ins) => match ins.arr_at(key) {
            Some(a) => if a.len() > 0 {
                text_or(a[0], "text"@, "-"@)
            } else {
                "-"@
            },
            None => "-"@,
        },
        None => "-"@,
    }
}

pub open spec fn my_coupon_header() -> Seq<Seq<char>> {
    seq!["券名"@, "券码"@, "有效期"@, "状态"@]
}

pub open spec fn my_coupon_row(c: JVal) -> Seq<Seq<char>> {
    seq![
        text_or(c, "title"@, "-"@),
        text_or(c, "code"@, "-"@),
        instruction_text(c, "availableTime"@),
        instruction_text(c, "labels"@),
    ]
}

pub open spec fn store_coupon_header() -> Seq<Seq<char>> {
    seq!["券名"@, "券ID"@, "券码"@, "有效期"@, "适用商品"@]
}

pub open spec fn store_coupon_row(c: JVal) -> Seq<Seq<char>> {
    seq![
        text_or(c, "title"@, "-"@),
        text_or(c, "couponId"@, "-"@),
        text_or(c, "couponCode"@, "-"@),
        text_or(c, "tradeDateTime"@, "-"@),
        join(member_texts(list_or_empty(c, "products"@), "productName"@), ", "@),
    ]
}

/// The rendering of coupons: the member's own coupons (`data.coupons`) with
/// title, code, validity and status; otherwise the store's coupons (`data`
/// as a list) with title, ids, validity and products; or a note that there
/// is none.
pub open spec fn coupons_text(val: JVal) -> Seq<char> {
    "\n🎫 优惠券\n"@ + match data_of(val).arr_at("coupons"@) {
        Some(list) => if list.len() == 0 {
            "  (暂无优惠券)\n\n"@
        } else {
            table_text(seq![my_coupon_header()] + Seq::new(list.len(), |i: int| my_coupon_row(list[i])))
                + "\n"@
        },
        None => {
            let list = data_list(val);
            if list.len() == 0 {
                "  (暂无可用优惠券)\n\n"@
            } else {
                table_text(seq![store_coupon_header()] + Seq::new(list.len(), |i: int| store_coupon_row(list[i])))
                    + "\n"@
            }
        },
    }
}

fn instruction_cell(c: &Json, key: &str) -> (r: String)
    ensures
        r@ == instruction_text(c@, key@),
{
    match c.get("instructions") {
        Some(ins) => match ins.get_array(key) {
            Some(a) => if a.len() > 0 {
                text_at(&a[0], "text", "-")
            } else {
                "-".to_owned()
            },
            None => "-".to_owned(),
        },
        None => "-".to_owned(),
    }
}

fn my_coupon_cells(c: &Json) -> (r: Vec<String>)
    ensures
        cells(r) == my_coupon_row(c@),
{
    row4(
        text_at(c, "title", "-"),
        text_at(c, "code", "-"),
        instruction_cell(c, "availableTime"),
        instruction_cell(c, "labels"),
    )
}

fn store_coupon_cells(c: &Json) -> (r: Vec<String>)
    ensures
        cells(r) == store_coupon_row(c@),
{
    let empty: Vec<Json> = Vec::new();
    let names = texts_in(list_at(c, "products", &empty), "productName");
    row5(
        text_at(c, "title", "-"),
        text_at(c, "couponId", "-"),
        text_at(c, "couponCode", "-"),
        text_at(c, "tradeDateTime", "-"),
        join_strings(&names, ", "),
    )
}

fn my_coupons_table(list: &Vec<Json>) -> (r: String)
    ensures
        r@ == table_text(
            seq![my_coupon_header()] + Seq::new(list@.len(), |i: int| my_coupon_row(jvs(list@)[i])),
        ),
{
    let mut rows: Vec<Vec<String>> = Vec::new();
    rows.push(row4("券名".to_owned(), "券码".to_owned(), "有效期".to_owned(), "状态".to_owned()));
    let mut i: usize = 0;
    assert(rows_view(rows@) =~= seq![my_coupon_header()] + Seq::new(0, |k: int| my_coupon_row(list@[k]@)));
    while i < list.len()
        invariant
            i <= list@.len(),
            rows_view(rows@) == seq![my_coupon_header()] + Seq::new(i as nat, |k: int| my_coupon_row(list@[k]@)),
        decreases list@.len() - i,
    {
        let row = my_coupon_cells(&list[i]);
        let ghost before = rows@;
        rows.push(row);
        assert(rows_view(rows@) =~= rows_view(before).push(cells(row)));
        assert(rows_view(rows@) =~= seq![my_coupon_header()] + Seq::new((i + 1) as nat, |k: int| my_coupon_row(list@[k]@)));
        i += 1;
    }
    assert(Seq::new(list@.len(), |k: int| my_coupon_row(list@[k]@)) =~= Seq::new(list@.len(), |k: int| my_coupon_row(jvs(list@)[k])));
    render_table(rows)
}

fn store_coupons_table(list: &Vec<Json>) -> (r: String)
    ensures
        r@ == table_text(
            seq![store_coupon_header()] + Seq::new(list@.len(), |i: int| store_coupon_row(jvs(list@)[i])),
        ),
{
    let mut rows: Vec<Vec<String>> = Vec::new();
    rows.push(
        row5("券名".to_owned(), "券ID".to_owned(), "券码".to_owned(), "有效期".to_owned(), "适用商品".to_owned()),
    );
    let mut i: usize = 0;
    assert(rows_view(rows@) =~= seq![store_coupon_header()] + Seq::new(0, |k: int| store_coupon_row(list@[k]@)));
    while i < list.len()
        invariant
            i <= list@.len(),
            rows_view(rows@) == seq![store_coupon_header()] + Seq::new(i as nat, |k: int| store_coupon_row(list@[k]@)),
        decreases list@.len() - i,
    {
        let row = store_coupon_cells(&list[i]);
        let ghost before = rows@;
        rows.push(row);
        assert(rows_view(rows@) =~= rows_view(before).push(cells(row)));
        assert(rows_view(rows@) =~= seq![store_coupon_header()] + Seq::new((i + 1) as nat, |k: int| store_coupon_row(list@[k]@)));
        i += 1;
    }
    assert(Seq::new(list@.len(), |k: int| store_coupon_row(list@[k]@)) =~= Seq::new(list@.len(), |k: int| store_coupon_row(jvs(list@)[k])));
    render_table(rows)
}

pub fn format_coupons(val: &Json) -> (r: String)
    ensures
        r@ == coupons_text(val@),
{
    let null = Json::Null;
    let data = data_ref(val, &null);
    let mut out = String::new();
    out.append("\n🎫 优惠券\n");
    match data.get_array("coupons") {
        Some(list) => {
            if list.len() == 0 {
                out.append("  (暂无优惠券)\n\n");
                return out;
            }
            let table = my_coupons_table(list);
            out.append(table.as_str());
            out.append("\n");
            out
        },
        None => {
            let empty: Vec<Json> = Vec::new();
            let list = data_list_ref(val, &null, &empty);
            if list.len() == 0 {
                out.append("  (暂无可用优惠券)\n\n");
                return out;
            }
            let table = store_coupons_table(list);
            out.append(table.as_str());
            out.append("\n");
            out
        },
    }
}

// ---- catering services ----

pub open spec fn catering_header() -> Seq<Seq<char>> {
    seq!["服务编码"@, "服务名称"@, "服务内容"@, "状态"@]
}

pub open spec fn catering_row(item: JVal) -> Seq<Seq<char>> {
    seq![
        text_or(item, "gmServiceCode"@, "-"@),
        text_or(item, "gmServiceName"@, "-"@),
        join(str_items(list_or_empty(item, "serviceItems"@)), "; "@),
        if flag(item, "enable"@) { "可选"@ } else { "不可选"@ },
    ]
}

/// The tiered promotions part of the catering rendering.
pub open spec fn promotions_text(data: JVal) -> Seq<char> {
    match data.arr_at("promotions"@) {
        Some(p) => "\n  🎁 阶梯优惠:\n"@ + prefixed_lines("     • "@, str_items(p)),
        None => Seq::empty(),
    }
}

/// The rendering of the catering (meal assistance) services of a store: a
/// table of code, name, service items and availability, then the tiered
/// promotions; or a note that the store has none.
pub open spec fn catering_text(val: JVal) -> Seq<char> {
    let data = data_of(val);
    let list = list_or_empty(data, "mealAssistanceItems"@);
    "\n🍱 助餐服务\n"@ + crate::show::rule(50) + "\n"@ + if list.len() == 0 {
        "  (当前门店无可选助餐服务)\n\n"@
    } else {
        table_text(seq![catering_header()] + Seq::new(list.len(), |i: int| catering_row(list[i]))) + "\n"@
            + promotions_text(data) + "\n"@
    }
}

fn catering_cells(item: &Json) -> (r: Vec<String>)
    ensures
        cells(r) == catering_row(item@),
{
    let empty: Vec<Json> = Vec::new();
    let services = strings_in(list_at(item, "serviceItems", &empty));
    let status = if flag_at(item, "enable") {
        "可选".to_owned()
    } else {
        "不可选".to_owned()
    };
    row4(text_at(item, "gmServiceCode", "-"), text_at(item, "gmServiceName", "-"), join_strings(&services, "; "), status)
}

#[verifier::rlimit(40)]
pub fn format_catering(val: &Json) -> (r: String)
    ensures
        r@ == catering_text(val@),
{
    let null = Json::Null;
    let data = data_ref(val, &null);
    let empty: Vec<Json> = Vec::new();
    let list = list_at(data, "mealAssistanceItems", &empty);
    let mut out = String::new();
    out.append("\n🍱 助餐服务\n");
    crate::show::push_rule(&mut out, 50);
    out.append("\n");
    let ghost head = out@;
    if list.len() == 0 {
        out.append("  (当前门店无可选助餐服务)\n\n");
        return out;
    }
    let mut rows: Vec<Vec<String>> = Vec::new();
    rows.push(row4("服务编码".to_owned(), "服务名称".to_owned(), "服务内容".to_owned(), "状态".to_owned()));
    let mut i: usize = 0;
    assert(rows_view(rows@) =~= seq![catering_header()] + Seq::new(0, |k: int| catering_row(list@[k]@)));
    while i < list.len()
        invariant
            i <= list@.len(),
            rows_view(rows@) == seq![catering_header()] + Seq::new(i as nat, |k: int| catering_row(list@[k]@)),
        decreases list@.len() - i,
    {
        let row = catering_cells(&list[i]);
        let ghost before = rows@;
        rows.push(row);
        assert(rows_view(rows@) =~= rows_view(before).push(cells(row)));
        assert(rows_view(rows@) =~= seq![catering_header()] + Seq::new((i + 1) as nat, |k: int| catering_row(list@[k]@)));
        i += 1;
    }
    let ghost items = jvs(list@);
    assert(Seq::new(list@.len(), |k: int| catering_row(list@[k]@)) =~= Seq::new(items.len(), |k: int| catering_row(items[k])));
    let table = render_table(rows);
    out.append(table.as_str());
    out.append("\n");
    match data.get_array("promotions") {
        Some(p) => {
            out.append("\n  🎁 阶梯优惠:\n");
            let texts = strings_in(p);
            push_prefixed_lines(&mut out, "     • ", &texts);
        },
        None => {},
    }
    out.append("\n");
    out
}

// ---- points-mall orders ----

pub open spec fn mall_order_header() -> Seq<Seq<char>> {
    seq!["订单号"@, "状态"@, "商品"@, "数量"@]
}

pub open spec fn mall_order_row(o: JVal) -> Seq<Seq<char>> {
    seq![
        text_or(o, "orderId"@, "-"@),
        text_or(o, "orderStatusTitle"@, "-"@),
        join(member_texts(list_or_empty(o, "goods"@), "spuName"@), ", "@),
        int_text(int_or(o, "totalCount"@, 0)),
    ]
}

/// The first item of the `data` list, `Null` where there is none.
pub open spec fn first_of_data(val: JVal) -> JVal {
    let list = data_list(val);
    if list.len() > 0 {
        list[0]
    } else {
        JVal::Null
    }
}

/// The rendering of a page of points-mall orders: order id, status, goods
/// and count, then the cursor of the next page where there is one; or a note
/// that there is no order.
pub open spec fn mall_orders_text(val: JVal) -> Seq<char> {
    let page = first_of_data(val);
    let list = list_or_empty(page, "list"@);
    "\n🛒 商城订单\n"@ + if list.len() == 0 {
        "  (暂无订单)\n\n"@
    } else {
        table_text(seq![mall_order_header()] + Seq::new(list.len(), |i: int| mall_order_row(list[i]))) + "\n"@
            + (if flag(page, "hasNext"@) {
            "\n  ➡️  还有更多订单，翻页请用 --last-id "@ + int_text(int_or(page, "lastId"@, 0)) + "\n"@
        } else {
            Seq::empty()
        }) + "\n"@
    }
}

fn mall_order_cells(o: &Json) -> (r: Vec<String>)
    ensures
        cells(r) == mall_order_row(o@),
{
    let empty: Vec<Json> = Vec::new();
    let goods = texts_in(list_at(o, "goods", &empty), "spuName");
    row4(
        text_at(o, "orderId", "-"),
        text_at(o, "orderStatusTitle", "-"),
        join_strings(&goods, ", "),
        i64_text(int_at(o, "totalCount", 0)),
    )
}

#[verifier::rlimit(40)]
pub fn format_mall_orders(val: &Json) -> (r: String)
    ensures
        r@ == mall_orders_text(val@),
{
    let null = Json::Null;
    let empty: Vec<Json> = Vec::new();
    let all = data_list_ref(val, &null, &empty);
    let page: &Json = if all.len() > 0 {
        &all[0]
    } else {
        &null
    };
    assert(page@ == first_of_data(val@));
    let empty2: Vec<Json> = Vec::new();
    let list = list_at(page, "list", &empty2);
    let mut out = String::new();
    out.append("\n🛒 商城订单\n");
    if list.len() == 0 {
        out.append("  (暂无订单)\n\n");
        return out;
    }
    let mut rows: Vec<Vec<String>> = Vec::new();
    rows.push(row4("订单号".to_owned(), "状态".to_owned(), "商品".to_owned(), "数量".to_owned()));
    let mut i: usize = 0;
    assert(rows_view(rows@) =~= seq![mall_order_header()] + Seq::new(0, |k: int| mall_order_row(list@[k]@)));
    while i < list.len()
        invariant
            i <= list@.len(),
            rows_view(rows@) == seq![mall_order_header()] + Seq::new(i as nat, |k: int| mall_order_row(list@[k]@)),
        decreases list@.len() - i,
    {
        let row = mall_order_cells(&list[i]);
        let ghost before = rows@;
        rows.push(row);
        assert(rows_view(rows@) =~= rows_view(before).push(cells(row)));
        assert(rows_view(rows@) =~= seq![mall_order_header()] + Seq::new((i + 1) as nat, |k: int| mall_order_row(list@[k]@)));
        i += 1;
    }
    let ghost items = jvs(list@);
    assert(Seq::new(list@.len(), |k: int| mall_order_row(list@[k]@)) =~= Seq::new(items.len(), |k: int| mall_order_row(items[k])));
    let table = render_table(rows);
    out.append(table.as_str());
    out.append("\n");
    if flag_at(page, "hasNext") {
        out.append("\n  ➡️  还有更多订单，翻页请用 --last-id ");
        let id = i64_text(int_at(page, "lastId", 0));
        out.append(id.as_str());
        out.append("\n");
    }
    out.append("\n");
    out
}

// ---- menu ----

/// `s.replace('\n', " ").replace('\r', "")`.
pub open spec fn one_line(s: Seq<char>) -> Seq<char>
    decreases s.len(),
{
    if s.len() == 0 {
        Seq::empty()
    } else {
        let prev = one_line(s.drop_last());
        if s.last() == '\n' {
            prev.push(' ')
        } else if s.last() == '\r' {
            prev
        } else {
            prev.push(s.last())
        }
    }
}

/// A category name on one line (see [`one_line`]).
pub fn one_line_text(s: &str) -> (r: String)
    ensures
        r@ == one_line(s@),
{
    let cs = chars_of(s);
    let mut out = String::new();
    let mut i: usize = 0;
    while i < cs.len()
        invariant
            i <= cs@.len(),
            cs@ == s@,
            out@ == one_line(s@.take(i as int)),
        decreases cs@.len() - i,
    {
        assert(s@.take(i + 1).drop_last() =~= s@.take(i as int));
        let c = cs[i];
        if c == '\n' {
            push_char(&mut out, ' ');
        } else if c != '\r' {
            push_char(&mut out, c);
        }
        i += 1;
    }
    assert(s@.take(cs@.len() as int) =~= s@);
    out
}

/// The marker of meals that can be bought together with an order.
pub open spec fn with_order_mark() -> Seq<char> {
    seq!['随', '单', '购']
}

/// Whether `t` contains `随单购`.
pub open spec fn marks_with_order(t: Seq<char>) -> bool {
    find_spec(t, with_order_mark()) is Some
}

pub open spec fn menu_header() -> Seq<Seq<char>> {
    seq!["分类"@, "餐品编码"@, "餐品名称"@, "价格"@, "标签"@]
}

/// Whether the meal described by `info` can be bought with an order: its
/// discount type mentions `随单购`, or `canWithOrder` is set.
pub open spec fn with_order(info: JVal) -> bool {
    (match info.str_at("discountType"@) {
        Some(t) => marks_with_order(t),
        None => false,
    }) || flag(info, "canWithOrder"@)
}

/// The tags cell of a meal: its string tags joined with `, `, followed by
/// `随单购` where the meal can be bought with an order.
pub open spec fn menu_tags(meal: JVal, info: JVal) -> Seq<char> {
    let tags = join(str_items(list_or_empty(meal, "tags"@)), ", "@);
    if with_order(info) {
        if tags.len() == 0 {
            "随单购"@
        } else {
            tags + ", 随单购"@
        }
    } else {
        tags
    }
}

/// The menu row of a meal of category `cat`, looked up by its code in the
/// `meals` object.
pub open spec fn menu_row(cat: Seq<char>, meal: JVal, meals: JVal) -> Seq<Seq<char>> {
    let code = text_or(meal, "code"@, "-"@);
    let info = meals.field(code);
    seq![
        cat,
        code,
        text_or(info, "name"@, "未知"@),
        "¥"@ + text_or(info, "currentPrice"@, "-"@),
        menu_tags(meal, info),
    ]
}

/// The menu rows of the categories, in order, each meal under its category.
pub open spec fn menu_rows(cats: Seq<JVal>, meals: JVal) -> Seq<Seq<Seq<char>>>
    decreases cats.len(),
{
    if cats.len() == 0 {
        Seq::empty()
    } else {
        let cat = cats.last();
        let name = one_line(text_or(cat, "name"@, "未分类"@));
        let ms = list_or_empty(cat, "meals"@);
        menu_rows(cats.drop_last(), meals) + Seq::new(ms.len(), |j: int| menu_row(name, ms[j], meals))
    }
}

/// The rendering of the menu: one table row per meal of each category, with
/// category, code, name, price and tags.
pub open spec fn menu_text(val: JVal) -> Seq<char> {
    let data = data_of(val);
    "\n🍔 菜单\n"@ + table_text(
        seq![menu_header()] + menu_rows(list_or_empty(data, "categories"@), data.field("meals"@)),
    ) + "\n"@
}

#[verifier::rlimit(40)]
fn menu_cells(cat: &String, meal: &Json, meals: &Json) -> (r: Vec<String>)
    ensures
        cells(r) == menu_row(cat@, meal@, meals@),
{
    let code = text_at(meal, "code", "-");
    let null = Json::Null;
    let info: &Json = match meals.get(code.as_str()) {
        Some(i) => i,
        None => &null,
    };
    assert(info@ == meals@.field(code@));
    let mut price = "¥".to_owned();
    let p = text_at(info, "currentPrice", "-");
    price.append(p.as_str());
    let empty: Vec<Json> = Vec::new();
    let tag_list = strings_in(list_at(meal, "tags", &empty));
    let mut tags = join_strings(&tag_list, ", ");
    let marked = match info.get_str("discountType") {
        Some(t) => {
            let cs = chars_of(t.as_str());
            let pat: Vec<char> = vec!['随', '单', '购'];
            assert(pat@ =~= with_order_mark());
            find_seq(&cs, &pat).is_some()
        },
        None => false,
    };
    if marked || flag_at(info, "canWithOrder") {
        if tags.as_str().is_empty() {
            tags = "随单购".to_owned();
        } else {
            tags.append(", 随单购");
        }
    }
    row5(cat.clone(), code, text_at(info, "name", "未知"), price, tags)
}

#[verifier::rlimit(40)]
pub fn format_menu(val: &Json) -> (r: String)
    ensures
        r@ == menu_text(val@),
{
    let null = Json::Null;
    let data = data_ref(val, &null);
    let meals: &Json = match data.get("meals") {
        Some(m) => m,
        None => &null,
    };
    assert(meals@ == data@.field("meals"@));
    let empty: Vec<Json> = Vec::new();
    let cats = list_at(data, "categories", &empty);
    let mut rows: Vec<Vec<String>> = Vec::new();
    rows.push(row5("分类".to_owned(), "餐品编码".to_owned(), "餐品名称".to_owned(), "价格".to_owned(), "标签".to_owned()));
    let mut i: usize = 0;
    assert(jvs(cats@).take(0) =~= Seq::<JVal>::empty());
    assert(rows_view(rows@) =~= seq![menu_header()] + menu_rows(jvs(cats@).take(0), meals@));
    while i < cats.len()
        invariant
            i <= cats@.len(),
            rows_view(rows@) == seq![menu_header()] + menu_rows(jvs(cats@).take(i as int), meals@),
        decreases cats@.len() - i,
    {
        let cat = &cats[i];
        let name = one_line_text(text_at(cat, "name", "未分类").as_str());
        let empty2: Vec<Json> = Vec::new();
        let ms = list_at(cat, "meals", &empty2);
        let ghost base = rows_view(rows@);
        let mut j: usize = 0;
        assert(base =~= base + Seq::new(0, |k: int| menu_row(name@, ms@[k]@, meals@)));
        while j < ms.len()
            invariant
                j <= ms@.len(),
                rows_view(rows@) == base + Seq::new(j as nat, |k: int| menu_row(name@, ms@[k]@, meals@)),
            decreases ms@.len() - j,
        {
            let row = menu_cells(&name, &ms[j], meals);
            let ghost before = rows@;
            rows.push(row);
            assert(rows_view(rows@) =~= rows_view(before).push(cells(row)));
            assert(rows_view(rows@) =~= base + Seq::new((j + 1) as nat, |k: int| menu_row(name@, ms@[k]@, meals@)));
            j += 1;
        }
        proof {
            let t = jvs(cats@).take(i + 1);
            assert(t.drop_last() =~= jvs(cats@).take(i as int));
            assert(t.last() == cat@);
            let lm = jvs(ms@);
            assert(Seq::new(ms@.len(), |k: int| menu_row(name@, ms@[k]@, meals@)) =~= Seq::new(
                lm.len(),
                |k: int| menu_row(name@, lm[k], meals@),
            ));
            assert(rows_view(rows@) =~= seq![menu_header()] + menu_rows(t, meals@));
        }
        i += 1;
    }
    assert(jvs(cats@).take(cats@.len() as int) =~= jvs(cats@));
    let mut out = String::new();
    out.append("\n🍔 菜单\n");
    let table = render_table(rows);
    out.append(table.as_str());
    out.append("\n");
    out
}

} // verus!
