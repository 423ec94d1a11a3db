//! Renderings of a delivery order and of a price calculation.
use vstd::prelude::*;
use crate::json::{Json, JVal, jvs};
use crate::render::{qr_text, render_qr};
use crate::show::{
    data_of, text_or, int_or, list_or_empty, text_at, int_at, list_at, rule, push_rule, pad_text, pad,
    money_cents_text, money_cents, order_id_spec, extract_order_id, prefixed_lines, push_prefixed_lines,
    concat, lemma_concat_push,
};
use crate::show::{data_ref, push_text_or};
use crate::text::{int_text, i64_text, lines_of, text_lines, views};

verus! {

// ---- delivery order ----

/// The amounts of an order that are shown as money, in display order: goods,
/// delivery fee, discount, total paid, then the price of each product.
pub open spec fn order_amounts_spec(val: JVal) -> Seq<Seq<char>> {
    let d = data_of(val);
    seq![
        text_or(d, "productPrice"@, "-"@),
        text_or(d, "realDeliveryPrice"@, "-"@),
        text_or(d, "totalDiscountAmount"@, "0"@),
        text_or(d, "realTotalAmount"@, "-"@),
    ] + match d.arr_at("orderProductList"@) {
        Some(ps) => Seq::new(ps.len(), |k: int| text_or(ps[k], "price"@, "-"@)),
        None => Seq::empty(),
    }
}

/// The amounts of an order that are shown as money (see [`order_amounts_spec`]).
pub fn order_amounts(val: &Json) -> (r: Vec<String>)
    ensures
        views(r@) == order_amounts_spec(val@),
{
    let null = Json::Null;
    let d = data_ref(val, &null);
    let mut r: Vec<String> = Vec::new();
    r.push(text_at(d, "productPrice", "-"));
    r.push(text_at(d, "realDeliveryPrice", "-"));
    r.push(text_at(d, "totalDiscountAmount", "0"));
    r.push(text_at(d, "realTotalAmount", "-"));
    let ghost head = views(r@);
    match d.get_array("orderProductList") {
        Some(ps) => {
            let mut k: usize = 0;
            assert(views(r@) =~= head + Seq::new(0, |j: int| text_or(ps@[j]@, "price"@, "-"@)));
            while k < ps.len()
                invariant
                    k <= ps@.len(),
                    views(r@) == head + Seq::new(k as nat, |j: int| text_or(ps@[j]@, "price"@, "-"@)),
                decreases ps@.len() - k,
            {
                let t = text_at(&ps[k], "price", "-");
                let ghost before = r@;
                r.push(t);
                assert(views(r@) =~= views(before).push(t@));
                assert(views(r@) =~= head + Seq::new((k + 1) as nat, |j: int| text_or(ps@[j]@, "price"@, "-"@)));
                k += 1;
            }
            assert(views(r@) =~= order_amounts_spec(val@));
        },
        None => {
            assert(views(r@) =~= order_amounts_spec(val@));
        },
    }
    r
}

/// The head of an order rendering: ids, status, store, time and the fee
/// breakdown, with the money texts `shown` (see [`order_amounts_spec`]).
pub open spec fn order_head_text(d: JVal, shown: Seq<Seq<char>>) -> Seq<char> {
    "\n📋 订单详情\n"@ + rule(50) + "\n"@
        + "  订单号:   "@ + text_or(d, "orderId"@, "-"@) + "\n"@
        + "  状态:     "@ + text_or(d, "orderStatus"@, "-"@) + "\n"@
        + "  门店:     "@ + text_or(d, "storeName"@, "-"@) + "\n"@
        + "  下单时间: "@ + text_or(d, "createTime"@, "-"@) + "\n"@
        + "\n  💰 费用明细\n"@
        + "     商品价格: "@ + shown[0] + "\n"@
        + "     配送费:   "@ + shown[1] + "\n"@
        + "     优惠:     -"@ + shown[2] + "\n"@
        + "     ─────────────────\n"@
        + "     实付:     "@ + shown[3] + "\n"@
        + "\n"@
}

/// The line of an ordered product with its money text.
pub open spec fn order_product_line(p: JVal, money: Seq<char>) -> Seq<char> {
    "     "@ + pad_text(text_or(p, "productName"@, "-"@), 20) + " x"@ + int_text(int_or(p, "quantity"@, 0))
        + "  "@ + money + "\n"@
}

/// The product list of an order, where it has one.
pub open spec fn order_products_text(d: JVal, shown: Seq<Seq<char>>) -> Seq<char> {
    match d.arr_at("orderProductList"@) {
        Some(ps) => "  🍔 商品清单\n"@ + concat(Seq::new(ps.len(), |k: int| order_product_line(ps[k], shown[4 + k])))
            + "\n"@,
        None => Seq::empty(),
    }
}

/// The delivery block of an order, where it has delivery information.
pub open spec fn order_delivery_text(d: JVal) -> Seq<char> {
    match d.get("deliveryInfo"@) {
        Some(di) => "  🚚 配送信息\n"@
            + "     收件人: "@ + text_or(di, "customerNickname"@, "-"@) + "  "@ + text_or(di, "mobilePhone"@, "-"@) + "\n"@
            + "     地址:   "@ + text_or(di, "deliveryAddress"@, "-"@) + " "@ + text_or(di, "addressDetail"@, "-"@) + "\n"@
            + "     方式:   "@ + text_or(di, "deliveryType"@, "-"@) + "\n"@
            + "\n"@,
        None => Seq::empty(),
    }
}

/// The link that the payment QR code holds: the app link for the order id of
/// the payment link, or the payment link itself.
pub open spec fn pay_qr_url(url: Seq<char>) -> Seq<char> {
    match order_id_spec(url) {
        Some(id) => "https://m.mcd.cn/mcp/jumpToApp?orderId="@ + id,
        None => url,
    }
}

/// The QR code lines, indented, or a note that none could be made.
pub open spec fn qr_block(url: Seq<char>) -> Seq<char> {
    match qr_text(url) {
        Some(q) => prefixed_lines("    "@, lines_of(q)),
        None => "    (无法生成二维码)\n"@,
    }
}

/// How the payment QR code of an order is given: not at all (the payment
/// link alone), drawn in the terminal, or written to a PNG file whose path
/// is printed.
#[derive(PartialEq, Eq, Structural, Clone, Copy, Debug)]
pub enum QrMode {
    Off,
    Terminal,
    Save,
}

/// The name of the PNG file of an order's QR code: its `orderId`, else the
/// order id of its payment link, else `order`.
pub open spec fn qr_file_id(d: JVal, url: Seq<char>) -> Seq<char> {
    match d.str_at("orderId"@) {
        Some(id) => id,
        None => match order_id_spec(url) {
            Some(id) => id,
            None => "order"@,
        },
    }
}

/// Where the PNG of an order's QR code is written.
pub open spec fn qr_save_path_text(d: JVal, url: Seq<char>) -> Seq<char> {
    "/tmp/mcd-qrcode/"@ + qr_file_id(d, url) + ".png"@
}

/// What follows the payment link in the mode `qr`.
pub open spec fn qr_part_text(d: JVal, url: Seq<char>, qr: QrMode) -> Seq<char> {
    match qr {
        QrMode::Off => Seq::empty(),
        QrMode::Terminal => "  📱 扫码支付 (麦当劳APP):\n"@ + qr_block(pay_qr_url(url)) + "\n"@,
        QrMode::Save => "  已经保存到 "@ + qr_save_path_text(d, url) + "\n"@,
    }
}

/// The payment block of an order, where it has a payment link: the link,
/// then the QR code part of the mode `qr`.
pub open spec fn order_pay_text(d: JVal, qr: QrMode) -> Seq<char> {
    match d.str_at("payH5Url"@) {
        Some(url) => "  💳 支付链接: "@ + url + "\n"@ + qr_part_text(d, url, qr),
        None => Seq::empty(),
    }
}

/// The rendering of an order, with `shown` the money texts of its amounts.
pub open spec fn order_text(val: JVal, shown: Seq<Seq<char>>, qr: QrMode) -> Seq<char> {
    let d = data_of(val);
    order_head_text(d, shown) + order_products_text(d, shown) + order_delivery_text(d) + order_pay_text(d, qr)
}

#[verifier::rlimit(40)]
fn order_head(d: &Json, shown: &Vec<String>) -> (r: String)
    requires
        shown@.len() >= 4,
    ensures
        r@ == order_head_text(d@, views(shown@)),
{
    let mut out = String::new();
    out.append("\n📋 订单详情\n");
    push_rule(&mut out, 50);
    out.append("\n");
    out.append("  订单号:   ");
    push_text_or(&mut out, d, "orderId", "-");
    out.append("\n");
    out.append("  状态:     ");
    push_text_or(&mut out, d, "orderStatus", "-");
    out.append("\n");
    out.append("  门店:     ");
    push_text_or(&mut out, d, "storeName", "-");
    out.append("\n");
    out.append("  下单时间: ");
    push_text_or(&mut out, d, "createTime", "-");
    out.append("\n");
    out.append("\n  💰 费用明细\n");
    out.append("     商品价格: ");
    out.append(shown[0].as_str());
    out.append("\n");
    out.append("     配送费:   ");
    out.append(shown[1].as_str());
    out.append("\n");
    out.append("     优惠:     -");
    out.append(shown[2].as_str());
    out.append("\n");
    out.append("     ─────────────────\n");
    out.append("     实付:     ");
    out.append(shown[3].as_str());
    out.append("\n");
    out.append("\n");
    assert(out@ =~= order_head_text(d@, views(shown@)));
    out
}

#[verifier::rlimit(40)]
fn order_products(d: &Json, shown: &Vec<String>) -> (r: String)
    requires
        match d@.arr_at("orderProductList"@) {
            Some(ps) => shown@.len() >= 4 + ps.len(),
            None => true,
        },
    ensures
        r@ == order_products_text(d@, views(shown@)),
{
    let mut out = String::new();
    match d.get_array("orderProductList") {
        Some(ps) => {
            out.append("  🍔 商品清单\n");
            let ghost sv = views(shown@);
            let ghost head = out@;
            let n = shown.len();
            let mut k: usize = 0;
            assert(out@ =~= head + concat(Seq::new(0, |j: int| order_product_line(ps@[j]@, sv[4 + j]))));
            while k < ps.len()
                invariant
                    k <= ps@.len(),
                    shown@.len() >= 4 + ps@.len(),
                    n == shown@.len(),
                    sv == views(shown@),
                    out@ == head + concat(Seq::new(k as nat, |j: int| order_product_line(ps@[j]@, sv[4 + j]))),
                decreases ps@.len() - k,
            {
                let p = &ps[k];
                let ghost prev = out@;
                out.append("     ");
                let name = text_at(p, "productName", "-");
                let padded = pad(name.as_str(), 20);
                out.append(padded.as_str());
                out.append(" x");
                let q = i64_text(int_at(p, "quantity", 0));
                out.append(q.as_str());
                out.append("  ");
                out.append(shown[4 + k].as_str());
                out.append("\n");
                proof {
                    let f = |j: int| order_product_line(ps@[j]@, sv[4 + j]);
                    assert(out@ =~= prev + order_product_line(p@, sv[4 + k]));
                    assert(Seq::new((k + 1) as nat, f) =~= Seq::new(k as nat, f).push(f(k as int)));
                    lemma_concat_push(Seq::new(k as nat, f), f(k as int));
                }
                k += 1;
            }
            out.append("\n");
            proof {
                let items = jvs(ps@);
                assert(Seq::new(ps@.len(), |j: int| order_product_line(ps@[j]@, sv[4 + j])) =~= Seq::new(
                    items.len(),
                    |j: int| order_product_line(items[j], sv[4 + j]),
                ));
            }
        },
        None => {},
    }
    out
}

#[verifier::rlimit(40)]
fn order_delivery(d: &Json) -> (r: String)
    ensures
        r@ == order_delivery_text(d@),
{
    let mut out = String::new();
    match d.get("deliveryInfo") {
        Some(di) => {
            out.append("  🚚 配送信息\n");
            out.append("     收件人: ");
            push_text_or(&mut out, di, "customerNickname", "-");
            out.append("  ");
            push_text_or(&mut out, di, "mobilePhone", "-");
            out.append("\n");
            out.append("     地址:   ");
            push_text_or(&mut out, di, "deliveryAddress", "-");
            out.append(" ");
            push_text_or(&mut out, di, "addressDetail", "-");
            out.append("\n");
            out.append("     方式:   ");
            push_text_or(&mut out, di, "deliveryType", "-");
            out.append("\n");
            out.append("\n");
            assert(out@ =~= order_delivery_text(d@));
        },
        None => {
            assert(out@ =~= order_delivery_text(d@));
        },
    }
    out
}

/// The payment QR code block of `url` (see [`qr_block`]).
pub fn pay_qr(url: &str) -> (r: String)
    ensures
        r@ == qr_block(url@),
{
    let mut out = String::new();
    match render_qr(url) {
        Some(q) => {
            let lines = text_lines(q.as_str());
            push_prefixed_lines(&mut out, "    ", &lines);
            assert(out@ =~= qr_block(url@));
        },
        None => {
            out.append("    (无法生成二维码)\n");
            assert(out@ =~= qr_block(url@));
        },
    }
    out
}

fn qr_file_name(d: &Json, url: &str) -> (r: String)
    ensures
        r@ == qr_file_id(d@, url@),
{
    match d.get_str("orderId") {
        Some(id) => id.clone(),
        None => match extract_order_id(url) {
            Some(id) => id,
            None => "order".to_owned(),
        },
    }
}

/// The link that the payment QR code of `url` holds (see [`pay_qr_url`]).
fn qr_link(url: &String) -> (r: String)
    ensures
        r@ == pay_qr_url(url@),
{
    match extract_order_id(url.as_str()) {
        Some(id) => {
            let mut u = "https://m.mcd.cn/mcp/jumpToApp?orderId=".to_owned();
            u.append(id.as_str());
            u
        },
        None => url.clone(),
    }
}

/// Where an order's QR code PNG goes (see [`qr_save_path_text`]).
fn qr_save_path(d: &Json, url: &str) -> (r: String)
    ensures
        r@ == qr_save_path_text(d@, url@),
{
    let mut p = "/tmp/mcd-qrcode/".to_owned();
    let name = qr_file_name(d, url);
    p.append(name.as_str());
    p.append(".png");
    p
}

#[verifier::rlimit(40)]
fn order_pay(d: &Json, qr: QrMode) -> (r: String)
    ensures
        r@ == order_pay_text(d@, qr),
{
    let mut out = String::new();
    match d.get_str("payH5Url") {
        Some(url) => {
            out.append("  💳 支付链接: ");
            out.append(url.as_str());
            out.append("\n");
            match qr {
                QrMode::Off => {},
                QrMode::Terminal => {
                    out.append("  📱 扫码支付 (麦当劳APP):\n");
                    let qr_url = qr_link(url);
                    let block = pay_qr(qr_url.as_str());
                    out.append(block.as_str());
                    out.append("\n");
                },
                QrMode::Save => {
                    out.append("  已经保存到 ");
                    let path = qr_save_path(d, url.as_str());
                    out.append(path.as_str());
                    out.append("\n");
                },
            }
            assert(out@ =~= order_pay_text(d@, qr));
        },
        None => {
            assert(out@ =~= order_pay_text(d@, qr));
        },
    }
    out
}

/// The rendering of an order (see [`order_text`]); `shown` holds the money
/// texts of the amounts that [`order_amounts`] lists, in that order, and
/// `qr` says whether and how the payment QR code is given.
pub fn format_order(val: &Json, shown: &Vec<String>, qr: QrMode) -> (r: String)
    requires
        shown@.len() == order_amounts_spec(val@).len(),
    ensures
        r@ == order_text(val@, views(shown@), qr),
{
    let null = Json::Null;
    let d = data_ref(val, &null);
    let mut out = order_head(d, shown);
    let products = order_products(d, shown);
    out.append(products.as_str());
    let delivery = order_delivery(d);
    out.append(delivery.as_str());
    let pay = order_pay(d, qr);
    out.append(pay.as_str());
    out
}

/// For writing an order's QR code to a file: the link that the code holds and
/// the path of the PNG, where the order has a payment link.
pub fn qr_save_target(val: &Json) -> (r: Option<(String, String)>)
    ensures
        match data_of(val@).str_at("payH5Url"@) {
            Some(url) => r matches Some((link, path)) && link@ == pay_qr_url(url)
                && path@ == qr_save_path_text(data_of(val@), url),
            None => r is None,
        },
{
    let null = Json::Null;
    let d = data_ref(val, &null);
    match d.get_str("payH5Url") {
        Some(url) => Some((qr_link(url), qr_save_path(d, url.as_str()))),
        None => None,
    }
}

// ---- price calculation ----

/// The line of a priced product.
pub open spec fn price_line(p: JVal) -> Seq<char> {
    "  "@ + pad_text(text_or(p, "productName"@, "-"@), 22) + " x"@ + int_text(int_or(p, "quantity"@, 0)) + "  "@
        + money_cents_text(int_or(p, "subtotal"@, 0)) + "\n"@
}

/// The line of a way to take the meal.
pub open spec fn take_way_line(tw: JVal) -> Seq<char> {
    "     "@ + text_or(tw, "title"@, "-"@) + " — "@ + text_or(tw, "subtitle"@, ""@) + " (code: "@ + text_or(
        tw,
        "code"@,
        "-"@,
    ) + ")\n"@
}

/// The goods subtotal of a price calculation in cents: the price less the
/// delivery and packing fees.
pub open spec fn goods_subtotal(d: JVal) -> int {
    int_or(d, "price"@, 0) - int_or(d, "deliveryPrice"@, 0) - int_or(d, "packingPrice"@, 0)
}

/// Whether the goods subtotal of a price calculation is an `i64`.
pub open spec fn price_computable(val: JVal) -> bool {
    i64::MIN <= goods_subtotal(data_of(val)) <= i64::MAX
}

/// The totals of a price calculation: the goods subtotal, the delivery,
/// packing and discount amounts that are positive, and the total.
pub open spec fn price_totals_text(d: JVal) -> Seq<char> {
    let price = int_or(d, "price"@, 0);
    let discount = int_or(d, "discount"@, 0);
    let delivery = int_or(d, "deliveryPrice"@, 0);
    let packing = int_or(d, "packingPrice"@, 0);
    Seq::empty() + money_line_if(true, "  商品小计:     "@, goods_subtotal(d))
        + money_line_if(delivery > 0, "  配送费:       "@, delivery)
        + money_line_if(packing > 0, "  打包费:       "@, packing)
        + money_line_if(discount > 0, "  优惠:        -"@, discount)
        + "  ─────────────────────\n"@
        + money_line_if(true, "  实付合计:     "@, price)
}

/// The rendering of a price calculation (amounts in cents): each product
/// with quantity and subtotal, the totals, and the ways to take the meal.
pub open spec fn price_text(val: JVal) -> Seq<char> {
    let d = data_of(val);
    "\n💰 价格计算\n"@ + rule(50) + "\n"@
        + (match d.arr_at("productList"@) {
        Some(ps) => concat(Seq::new(ps.len(), |k: int| price_line(ps[k]))),
        None => Seq::empty(),
    }) + "\n"@ + price_totals_text(d)
        + (match d.arr_at("takeWayList"@) {
        Some(tws) => "\n  📦 取餐方式:\n"@ + concat(Seq::new(tws.len(), |k: int| take_way_line(tws[k]))),
        None => Seq::empty(),
    }) + "\n"@
}

fn price_lines(ps: &Vec<Json>) -> (r: String)
    ensures
        r@ == concat(Seq::new(ps@.len(), |k: int| price_line(jvs(ps@)[k]))),
{
    let mut out = String::new();
    let mut k: usize = 0;
    assert(out@ =~= concat(Seq::new(0, |j: int| price_line(ps@[j]@))));
    while k < ps.len()
        invariant
            k <= ps@.len(),
            out@ == concat(Seq::new(k as nat, |j: int| price_line(ps@[j]@))),
        decreases ps@.len() - k,
    {
        let p = &ps[k];
        let ghost prev = out@;
        out.append("  ");
        let name = text_at(p, "productName", "-");
        let padded = pad(name.as_str(), 22);
        out.append(padded.as_str());
        out.append(" x");
        let q = i64_text(int_at(p, "quantity", 0));
        out.append(q.as_str());
        out.append("  ");
        let m = money_cents(int_at(p, "subtotal", 0));
        out.append(m.as_str());
        out.append("\n");
        proof {
            let f = |j: int| price_line(ps@[j]@);
            assert(out@ =~= prev + price_line(p@));
            assert(Seq::new((k + 1) as nat, f) =~= Seq::new(k as nat, f).push(f(k as int)));
            lemma_concat_push(Seq::new(k as nat, f), f(k as int));
        }
        k += 1;
    }
    assert(Seq::new(ps@.len(), |j: int| price_line(ps@[j]@)) =~= Seq::new(ps@.len(), |j: int| price_line(jvs(ps@)[j])));
    out
}

fn take_way_lines(tws: &Vec<Json>) -> (r: String)
    ensures
        r@ == concat(Seq::new(tws@.len(), |k: int| take_way_line(jvs(tws@)[k]))),
{
    let mut out = String::new();
    let mut k: usize = 0;
    assert(out@ =~= concat(Seq::new(0, |j: int| take_way_line(tws@[j]@))));
    while k < tws.len()
        invariant
            k <= tws@.len(),
            out@ == concat(Seq::new(k as nat, |j: int| take_way_line(tws@[j]@))),
        decreases tws@.len() - k,
    {
        let tw = &tws[k];
        let ghost prev = out@;
        out.append("     ");
        push_text_or(&mut out, tw, "title", "-");
        out.append(" — ");
        push_text_or(&mut out, tw, "subtitle", "");
        out.append(" (code: ");
        push_text_or(&mut out, tw, "code", "-");
        out.append(")\n");
        proof {
            let f = |j: int| take_way_line(tws@[j]@);
            assert(out@ =~= prev + take_way_line(tw@));
            assert(Seq::new((k + 1) as nat, f) =~= Seq::new(k as nat, f).push(f(k as int)));
            lemma_concat_push(Seq::new(k as nat, f), f(k as int));
        }
        k += 1;
    }
    assert(Seq::new(tws@.len(), |j: int| take_way_line(tws@[j]@)) =~= Seq::new(tws@.len(), |j: int| take_way_line(jvs(tws@)[j])));
    out
}

/// A money line: the head, the amount in yuan and a newline, where `cond` holds.
pub open spec fn money_line_if(cond: bool, head: Seq<char>, cents: int) -> Seq<char> {
    if cond {
        head + money_cents_text(cents) + "\n"@
    } else {
        Seq::empty()
    }
}

fn push_money_line_if(out: &mut String, cond: bool, head: &str, cents: i64)
    ensures
        final(out)@ == old(out)@ + money_line_if(cond, head@, cents as int),
{
    if cond {
        out.append(head);
        let m = money_cents(cents);
        out.append(m.as_str());
        out.append("\n");
        assert(out@ =~= old(out)@ + money_line_if(cond, head@, cents as int));
    } else {
        assert(out@ =~= old(out)@ + money_line_if(cond, head@, cents as int));
    }
}

fn price_totals(d: &Json) -> (r: String)
    requires
        i64::MIN <= goods_subtotal(d@) <= i64::MAX,
    ensures
        r@ == price_totals_text(d@),
{
    let price = int_at(d, "price", 0);
    let discount = int_at(d, "discount", 0);
    let delivery = int_at(d, "deliveryPrice", 0);
    let packing = int_at(d, "packingPrice", 0);
    let sub = (price as i128) - (delivery as i128) - (packing as i128);
    let mut out = String::new();
    push_money_line_if(&mut out, true, "  商品小计:     ", sub as i64);
    push_money_line_if(&mut out, delivery > 0, "  配送费:       ", delivery);
    push_money_line_if(&mut out, packing > 0, "  打包费:       ", packing);
    push_money_line_if(&mut out, discount > 0, "  优惠:        -", discount);
    out.append("  ─────────────────────\n");
    push_money_line_if(&mut out, true, "  实付合计:     ", price);
    assert(out@ =~= price_totals_text(d@));
    out
}

/// The rendering of a price calculation (see [`price_text`]).
#[verifier::rlimit(40)]
pub fn format_price(val: &Json) -> (r: String)
    requires
        price_computable(val@),
    ensures
        r@ == price_text(val@),
{
    let null = Json::Null;
    let d = data_ref(val, &null);
    let mut out = String::new();
    out.append("\n💰 价格计算\n");
    push_rule(&mut out, 50);
    out.append("\n");
    let products = match d.get_array("productList") {
        Some(ps) => price_lines(ps),
        None => String::new(),
    };
    out.append(products.as_str());
    out.append("\n");
    let totals = price_totals(d);
    out.append(totals.as_str());
    let ways = match d.get_array("takeWayList") {
        Some(tws) => {
            let mut w = "\n  📦 取餐方式:\n".to_owned();
            let lines = take_way_lines(tws);
            w.append(lines.as_str());
            w
        },
        None => String::new(),
    };
    out.append(ways.as_str());
    out.append("\n");
    assert(out@ =~= price_text(val@));
    out
}


// ---- what the renderings show ----

/// Whether `t` occurs in `s`.
pub open spec fn has_part(s: Seq<char>, t: Seq<char>) -> bool {
    exists|i: int| 0 <= i && i + t.len() <= s.len() && #[trigger] s.subrange(i, i + t.len()) == t
}

proof fn lemma_has_part_self(t: Seq<char>)
    ensures
        has_part(t, t),
{
    assert(t.subrange(0int, 0int + t.len()) =~= t);
}

proof fn lemma_has_part_extend(x: Seq<char>, a: Seq<char>, y: Seq<char>, t: Seq<char>)
    requires
        has_part(a, t),
    ensures
        has_part(x + a + y, t),
{
    let i = choose|i: int| 0 <= i && i + t.len() <= a.len() && #[trigger] a.subrange(i, i + t.len()) == t;
    let s = x + a + y;
    let j = x.len() + i;
    assert(s.subrange(j, j + t.len()) =~= a.subrange(i, i + t.len()));
}

proof fn lemma_concat_has(parts: Seq<Seq<char>>, k: int)
    requires
        0 <= k < parts.len(),
    ensures
        has_part(concat(parts), parts[k]),
    decreases parts.len(),
{
    let last = parts.len() - 1;
    if k == last {
        lemma_has_part_self(parts[k]);
        lemma_has_part_extend(concat(parts.drop_last()), parts[k], Seq::empty(), parts[k]);
        assert(concat(parts.drop_last()) + parts[k] + Seq::<char>::empty() =~= concat(parts));
    } else {
        lemma_concat_has(parts.drop_last(), k);
        assert(parts.drop_last()[k] == parts[k]);
        lemma_has_part_extend(Seq::empty(), concat(parts.drop_last()), parts.last(), parts[k]);
        assert(Seq::<char>::empty() + concat(parts.drop_last()) + parts.last() =~= concat(parts));
    }
}

/// Law: a price calculation shows its goods subtotal and the amount to pay,
/// and shows the delivery fee, the packing fee and the discount each on its
/// own line with its own amount in yuan wherever that amount is positive.
pub proof fn lemma_price_shows_amounts(val: JVal)
    ensures
        ({
            let d = data_of(val);
            let t = price_text(val);
            let delivery = int_or(d, "deliveryPrice"@, 0);
            let packing = int_or(d, "packingPrice"@, 0);
            let discount = int_or(d, "discount"@, 0);
            &&& has_part(t, "  商品小计:     "@ + money_cents_text(
                int_or(d, "price"@, 0) - delivery - packing,
            ) + "\n"@)
            &&& delivery > 0 ==> has_part(t, "  配送费:       "@ + money_cents_text(delivery) + "\n"@)
            &&& packing > 0 ==> has_part(t, "  打包费:       "@ + money_cents_text(packing) + "\n"@)
            &&& discount > 0 ==> has_part(t, "  优惠:        -"@ + money_cents_text(discount) + "\n"@)
            &&& has_part(t, "  实付合计:     "@ + money_cents_text(int_or(d, "price"@, 0)) + "\n"@)
        }),
{
    let d = data_of(val);
    let price = int_or(d, "price"@, 0);
    let discount = int_or(d, "discount"@, 0);
    let delivery = int_or(d, "deliveryPrice"@, 0);
    let packing = int_or(d, "packingPrice"@, 0);
    let l1 = money_line_if(true, "  商品小计:     "@, goods_subtotal(d));
    let l2 = money_line_if(delivery > 0, "  配送费:       "@, delivery);
    let l3 = money_line_if(packing > 0, "  打包费:       "@, packing);
    let l4 = money_line_if(discount > 0, "  优惠:        -"@, discount);
    let sep = "  ─────────────────────\n"@;
    let l5 = money_line_if(true, "  实付合计:     "@, price);
    let head = "\n💰 价格计算\n"@ + rule(50) + "\n"@ + (match d.arr_at("productList"@) {
        Some(ps) => concat(Seq::new(ps.len(), |k: int| price_line(ps[k]))),
        None => Seq::empty(),
    }) + "\n"@;
    let tail = (match d.arr_at("takeWayList"@) {
        Some(tws) => "\n  📦 取餐方式:\n"@ + concat(Seq::new(tws.len(), |k: int| take_way_line(tws[k]))),
        None => Seq::empty(),
    }) + "\n"@;
    let t = price_text(val);
    assert(t =~= head + (Seq::empty() + l1 + l2 + l3 + l4 + sep + l5) + tail);
    lemma_lines_in(head, l1, l2, l3, l4, sep, l5, tail);
}

/// Each of the five lines occurs in a text made of a head, the lines with a
/// separator before the last, and a tail.
proof fn lemma_lines_in(
    head: Seq<char>,
    l1: Seq<char>,
    l2: Seq<char>,
    l3: Seq<char>,
    l4: Seq<char>,
    sep: Seq<char>,
    l5: Seq<char>,
    tail: Seq<char>,
)
    ensures
        ({
            let t = head + (Seq::empty() + l1 + l2 + l3 + l4 + sep + l5) + tail;
            &&& has_part(t, l1)
            &&& has_part(t, l2)
            &&& has_part(t, l3)
            &&& has_part(t, l4)
            &&& has_part(t, l5)
        }),
{
    let t = head + (Seq::empty() + l1 + l2 + l3 + l4 + sep + l5) + tail;
    lemma_has_part_self(l1);
    lemma_has_part_extend(head, l1, l2 + l3 + l4 + sep + l5 + tail, l1);
    assert(head + l1 + (l2 + l3 + l4 + sep + l5 + tail) =~= t);
    lemma_has_part_self(l2);
    lemma_has_part_extend(head + l1, l2, l3 + l4 + sep + l5 + tail, l2);
    assert(head + l1 + l2 + (l3 + l4 + sep + l5 + tail) =~= t);
    lemma_has_part_self(l3);
    lemma_has_part_extend(head + l1 + l2, l3, l4 + sep + l5 + tail, l3);
    assert(head + l1 + l2 + l3 + (l4 + sep + l5 + tail) =~= t);
    lemma_has_part_self(l4);
    lemma_has_part_extend(head + l1 + l2 + l3, l4, sep + l5 + tail, l4);
    assert(head + l1 + l2 + l3 + l4 + (sep + l5 + tail) =~= t);
    lemma_has_part_self(l5);
    lemma_has_part_extend(head + l1 + l2 + l3 + l4 + sep, l5, tail, l5);
    assert(head + l1 + l2 + l3 + l4 + sep + l5 + tail =~= t);
}

/// Law: an order shows each of its products on a line of its own with the
/// product's name, its quantity and the money text of that product's own
/// price (`shown[4 + k]` for the `k`-th product).
pub proof fn lemma_order_shows_product_prices(val: JVal, shown: Seq<Seq<char>>, qr: QrMode, k: int)
    requires
        data_of(val).arr_at("orderProductList"@) is Some,
        0 <= k < data_of(val).arr_at("orderProductList"@)->Some_0.len(),
    ensures
        ({
            let p = data_of(val).arr_at("orderProductList"@)->Some_0[k];
            has_part(
                order_text(val, shown, qr),
                "     "@ + pad_text(text_or(p, "productName"@, "-"@), 20) + " x"@ + int_text(int_or(p, "quantity"@, 0))
                    + "  "@ + shown[4 + k] + "\n"@,
            )
        }),
{
    let d = data_of(val);
    let ps = d.arr_at("orderProductList"@)->Some_0;
    let parts = Seq::new(ps.len(), |j: int| order_product_line(ps[j], shown[4 + j]));
    lemma_concat_has(parts, k);
    let products = order_products_text(d, shown);
    assert(products == "  🍔 商品清单\n"@ + concat(parts) + "\n"@);
    lemma_has_part_extend("  🍔 商品清单\n"@, concat(parts), "\n"@, parts[k]);
    let x = order_head_text(d, shown);
    let y = order_delivery_text(d) + order_pay_text(d, qr);
    lemma_has_part_extend(x, products, y, parts[k]);
    assert(x + products + y =~= order_text(val, shown, qr));
}

/// Law: an order shows its id and the four amounts of its fee breakdown,
/// each with its own money text: goods (`shown[0]`), delivery (`shown[1]`),
/// discount (`shown[2]`) and the amount paid (`shown[3]`).
#[verifier::rlimit(100)]
pub proof fn lemma_order_shows_head(val: JVal, shown: Seq<Seq<char>>, qr: QrMode)
    ensures
        ({
            let t = order_text(val, shown, qr);
            &&& has_part(t, "  订单号:   "@ + text_or(data_of(val), "orderId"@, "-"@) + "\n"@)
            &&& has_part(t, "     商品价格: "@ + shown[0] + "\n"@)
            &&& has_part(t, "     配送费:   "@ + shown[1] + "\n"@)
            &&& has_part(t, "     优惠:     -"@ + shown[2] + "\n"@)
            &&& has_part(t, "     实付:     "@ + shown[3] + "\n"@)
        }),
{
    let d = data_of(val);
    let a0 = "\n📋 订单详情\n"@ + rule(50) + "\n"@;
    let id = "  订单号:   "@ + text_or(d, "orderId"@, "-"@) + "\n"@;
    let mid = "  状态:     "@ + text_or(d, "orderStatus"@, "-"@) + "\n"@ + "  门店:     "@ + text_or(d, "storeName"@, "-"@)
        + "\n"@ + "  下单时间: "@ + text_or(d, "createTime"@, "-"@) + "\n"@ + "\n  💰 费用明细\n"@;
    let g = "     商品价格: "@ + shown[0] + "\n"@;
    let dl = "     配送费:   "@ + shown[1] + "\n"@;
    let dc = "     优惠:     -"@ + shown[2] + "\n"@;
    let sep = "     ─────────────────\n"@;
    let pd = "     实付:     "@ + shown[3] + "\n"@;
    let end = "\n"@;
    let h = order_head_text(d, shown);
    assert(h =~= a0 + id + mid + g + dl + dc + sep + pd + end);
    let tail = order_products_text(d, shown) + order_delivery_text(d) + order_pay_text(d, qr);
    assert(order_text(val, shown, qr) == h + order_products_text(d, shown) + order_delivery_text(d) + order_pay_text(d, qr));
    assert(order_text(val, shown, qr) =~= h + tail);
    lemma_head_lines_in(a0, id, mid, g, dl, dc, sep, pd, end + tail);
    assert(a0 + id + mid + g + dl + dc + sep + pd + (end + tail) =~= h + tail);
}

/// Each of five lines occurs in a text made of them, with other text before,
/// between and after.
proof fn lemma_head_lines_in(
    a0: Seq<char>,
    id: Seq<char>,
    mid: Seq<char>,
    g: Seq<char>,
    dl: Seq<char>,
    dc: Seq<char>,
    sep: Seq<char>,
    pd: Seq<char>,
    rest: Seq<char>,
)
    ensures
        ({
            let t = a0 + id + mid + g + dl + dc + sep + pd + rest;
            &&& has_part(t, id)
            &&& has_part(t, g)
            &&& has_part(t, dl)
            &&& has_part(t, dc)
            &&& has_part(t, pd)
        }),
{
    let t = a0 + id + mid + g + dl + dc + sep + pd + rest;
    lemma_has_part_self(id);
    lemma_has_part_extend(a0, id, mid + g + dl + dc + sep + pd + rest, id);
    assert(a0 + id + (mid + g + dl + dc + sep + pd + rest) =~= t);
    lemma_has_part_self(g);
    lemma_has_part_extend(a0 + id + mid, g, dl + dc + sep + pd + rest, g);
    assert(a0 + id + mid + g + (dl + dc + sep + pd + rest) =~= t);
    lemma_has_part_self(dl);
    lemma_has_part_extend(a0 + id + mid + g, dl, dc + sep + pd + rest, dl);
    assert(a0 + id + mid + g + dl + (dc + sep + pd + rest) =~= t);
    lemma_has_part_self(dc);
    lemma_has_part_extend(a0 + id + mid + g + dl, dc, sep + pd + rest, dc);
    assert(a0 + id + mid + g + dl + dc + (sep + pd + rest) =~= t);
    lemma_has_part_self(pd);
    lemma_has_part_extend(a0 + id + mid + g + dl + dc + sep, pd, rest, pd);
}

/// Law: an order with a payment link ends, without a QR code, with the
/// link's line; drawing the QR code in the terminal adds the QR block after
/// that line and changes nothing before it; saving it adds the line with the
/// file's path instead. Without a payment link the mode changes nothing.
pub proof fn lemma_order_qr_modes(val: JVal, shown: Seq<Seq<char>>)
    ensures
        ({
            let d = data_of(val);
            let off = order_text(val, shown, QrMode::Off);
            match d.str_at("payH5Url"@) {
                Some(url) => {
                    &&& off.len() >= ("  💳 支付链接: "@ + url + "\n"@).len()
                    &&& off.subrange(off.len() - ("  💳 支付链接: "@ + url + "\n"@).len(), off.len() as int)
                        == "  💳 支付链接: "@ + url + "\n"@
                    &&& order_text(val, shown, QrMode::Terminal) == off + "  📱 扫码支付 (麦当劳APP):\n"@ + qr_block(
                        pay_qr_url(url),
                    ) + "\n"@
                    &&& order_text(val, shown, QrMode::Save) == off + "  已经保存到 "@ + qr_save_path_text(d, url)
                        + "\n"@
                },
                None => order_text(val, shown, QrMode::Terminal) == off && order_text(val, shown, QrMode::Save)
                    == off,
            }
        }),
{
    let d = data_of(val);
    let x = order_head_text(d, shown) + order_products_text(d, shown) + order_delivery_text(d);
    match d.str_at("payH5Url"@) {
        Some(url) => {
            let link = "  💳 支付链接: "@ + url + "\n"@;
            let off = order_text(val, shown, QrMode::Off);
            assert(off =~= x + link);
            assert(off.subrange(off.len() - link.len(), off.len() as int) =~= link);
            assert(order_text(val, shown, QrMode::Terminal) =~= off + "  📱 扫码支付 (麦当劳APP):\n"@ + qr_block(
                pay_qr_url(url),
            ) + "\n"@);
            assert(order_text(val, shown, QrMode::Save) =~= off + "  已经保存到 "@ + qr_save_path_text(d, url) + "\n"@);
        },
        None => {},
    }
}

/// Law: a price calculation shows each of its products on a line of its own
/// with the product's name, its quantity and its own subtotal in yuan.
pub proof fn lemma_price_shows_products(val: JVal, k: int)
    requires
        data_of(val).arr_at("productList"@) is Some,
        0 <= k < data_of(val).arr_at("productList"@)->Some_0.len(),
    ensures
        ({
            let p = data_of(val).arr_at("productList"@)->Some_0[k];
            has_part(
                price_text(val),
                "  "@ + pad_text(text_or(p, "productName"@, "-"@), 22) + " x"@ + int_text(int_or(p, "quantity"@, 0))
                    + "  "@ + money_cents_text(int_or(p, "subtotal"@, 0)) + "\n"@,
            )
        }),
{
    let d = data_of(val);
    let ps = d.arr_at("productList"@)->Some_0;
    let parts = Seq::new(ps.len(), |j: int| price_line(ps[j]));
    lemma_concat_has(parts, k);
    let x = "\n💰 价格计算\n"@ + rule(50) + "\n"@;
    let y = "\n"@ + price_totals_text(d) + (match d.arr_at("takeWayList"@) {
        Some(tws) => "\n  📦 取餐方式:\n"@ + concat(Seq::new(tws.len(), |j: int| take_way_line(tws[j]))),
        None => Seq::empty(),
    }) + "\n"@;
    lemma_has_part_extend(x, concat(parts), y, parts[k]);
    assert(x + concat(parts) + y =~= price_text(val));
}

} // verus!
