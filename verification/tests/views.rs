use mcd_cli::json::Json;
use mcd_cli::show::{extract_order_id, money_cents, pad};
use mcd_cli::show_details::{
    format_account, format_calendar, format_mall_detail, format_mall_order, format_mall_order_detail,
    format_nutrition, format_time,
};
use mcd_cli::show_meal::format_meal_detail;
use mcd_cli::show_orders::{format_order, format_price, order_amounts, qr_save_target, QrMode};
use mcd_cli::show_response::{
    can_render, pretty_print_json, response_kind, set_show_mods, FormatOptions, ResponseKind,
};
use mcd_cli::show_tables::{
    format_addresses, format_catering, format_coupons, format_mall_orders, format_mall_products, format_menu,
    format_nearby,
};

fn s(x: &str) -> Json {
    Json::Str(x.to_string())
}

fn n(x: i64) -> Json {
    Json::Int(x)
}

fn obj(p: Vec<(&str, Json)>) -> Json {
    Json::Object(p.into_iter().map(|(k, v)| (k.to_string(), v)).collect())
}

fn arr(v: Vec<Json>) -> Json {
    Json::Array(v)
}

fn resp(data: Json) -> Json {
    obj(vec![("data", data)])
}

fn rule(k: usize) -> String {
    "═".repeat(k)
}

fn table(rows: Vec<Vec<&str>>) -> String {
    let rows: Vec<Vec<String>> = rows.into_iter().map(|r| r.into_iter().map(|c| c.to_string()).collect()).collect();
    tabled::builder::Builder::from(rows).build().with(tabled::settings::Style::modern()).to_string()
}

#[test]
fn money_cents_two_decimals() {
    assert_eq!(money_cents(1234), "¥12.34");
    assert_eq!(money_cents(5), "¥0.05");
    assert_eq!(money_cents(-5), "¥-0.05");
    assert_eq!(money_cents(0), "¥0.00");
    assert_eq!(money_cents(-250), "¥-2.50");
    assert_eq!(money_cents(100), "¥1.00");
}

#[test]
fn order_id_from_pay_link() {
    assert_eq!(extract_order_id("https://m.mcd.cn/pay?orderId=123&x=1").as_deref(), Some("123"));
    assert_eq!(extract_order_id("https://m.mcd.cn/pay?orderId=777").as_deref(), Some("777"));
    assert_eq!(extract_order_id("a?orderId=9orderId=8").as_deref(), Some("9"));
    assert_eq!(extract_order_id("https://m.mcd.cn/pay?id=1"), None);
}

#[test]
fn pad_counts_display_columns() {
    assert_eq!(pad("ab", 5), "ab   ");
    assert_eq!(pad("汉", 4), "汉  ");
    assert_eq!(pad("汉字", 3), "汉字");
    assert_eq!(pad("abcdef", 3), "abcdef");
}

#[test]
fn time_view() {
    let v = resp(obj(vec![
        ("timestamp", n(1)),
        ("formatted", s("2025-01-01 12:00")),
        ("dayOfWeek", s("周三")),
        ("timezone", s("Asia/Shanghai")),
    ]));
    assert_eq!(format_time(&v), "\n🕐 当前时间: 2025-01-01 12:00 周三 (Asia/Shanghai)\n\n");
}

#[test]
fn account_view_defaults() {
    let v = resp(obj(vec![("availablePoint", s("100"))]));
    let want = format!(
        "\n👤 我的账户\n{}\n  可用积分:    100 积分\n  累计积分:    0\n  已使用:      0\n  已过期:      0\n  本月将过期:  0\n  冻结中:      0\n\n",
        rule(40)
    );
    assert_eq!(format_account(&v), want);
}

#[test]
fn mall_exchange_views() {
    assert_eq!(format_mall_order(&resp(obj(vec![("orderNo", s("M1"))]))), "\n✅ 兑换成功！订单号: M1\n\n");
    assert_eq!(format_mall_order(&resp(obj(vec![("exchangeResult", s("ok"))]))), "\n✅ 兑换结果: ok\n\n");
    assert_eq!(format_mall_order(&resp(obj(vec![]))), "\n✅ 操作成功\n\n");
}

#[test]
fn mall_detail_view() {
    let v = resp(obj(vec![
        ("spuName", s("杯子")),
        ("points", s("500")),
        ("skuId", n(7)),
        ("note", s("限量")),
        ("detail", s("")),
    ]));
    let want = format!("\n🎁 商品详情\n{}\n  名称: 杯子\n  所需积分: 500\n  skuId: 7\n  须知: 限量\n\n", rule(50));
    assert_eq!(format_mall_detail(&v), want);
}

#[test]
fn mall_order_detail_view() {
    let v = resp(obj(vec![
        ("orderId", s("A1")),
        ("orderStatusTitle", s("已发货")),
        ("goods", arr(vec![
            obj(vec![("spuName", s("杯子")), ("skuName", s("红色")), ("count", n(2)), ("points", s("100"))]),
            obj(vec![("spuName", s("碗")), ("skuName", s("碗")), ("count", n(1))]),
        ])),
        ("logistics", obj(vec![("company", s("顺丰")), ("logisticsNo", s("SF1"))])),
    ]));
    let want = format!(
        "\n📋 商城订单详情\n{}\n  订单号:   A1\n  状态:     已发货\n  支付方式: -\n  下单时间: -\n  客服电话: -\n\n  🎁 商品:\n     • 杯子 (红色) x2 (100积分)\n     • 碗 x1 (0积分)\n\n  🚚 物流: 顺丰 SF1\n\n",
        rule(50)
    );
    assert_eq!(format_mall_order_detail(&v), want);
}

#[test]
fn order_view_with_money_texts() {
    let v = resp(obj(vec![
        ("orderId", s("O1")),
        ("orderStatus", s("已支付")),
        ("storeName", s("S")),
        ("createTime", s("T")),
        ("orderProductList", arr(vec![obj(vec![("productName", s("ab")), ("quantity", n(2)), ("price", s("10"))])])),
    ]));
    let raw = order_amounts(&v);
    assert_eq!(raw, vec!["-", "-", "0", "-", "10"]);
    let shown: Vec<String> = vec!["¥1.00", "¥2.00", "¥0.00", "¥3.00", "¥10.00"].into_iter().map(String::from).collect();
    let want = format!(
        "\n📋 订单详情\n{}\n  订单号:   O1\n  状态:     已支付\n  门店:     S\n  下单时间: T\n\n  💰 费用明细\n     商品价格: ¥1.00\n     配送费:   ¥2.00\n     优惠:     -¥0.00\n     ─────────────────\n     实付:     ¥3.00\n\n  🍔 商品清单\n     ab{} x2  ¥10.00\n\n",
        rule(50),
        " ".repeat(18)
    );
    assert_eq!(format_order(&v, &shown, QrMode::Off), want);
    assert_eq!(format_order(&v, &shown, QrMode::Terminal), want);
    assert_eq!(qr_save_target(&v), None);
}

#[test]
fn order_view_delivery_and_qr() {
    let url = "https://m.mcd.cn/pay?orderId=123&x=1";
    let v = resp(obj(vec![
        ("orderId", s("O2")),
        ("deliveryInfo", obj(vec![("customerNickname", s("李")), ("mobilePhone", s("138"))])),
        ("payH5Url", s(url)),
    ]));
    let shown: Vec<String> = vec!["a", "b", "c", "d"].into_iter().map(String::from).collect();
    let out = format_order(&v, &shown, QrMode::Terminal);
    assert!(out.contains("  🚚 配送信息\n     收件人: 李  138\n     地址:   - -\n     方式:   -\n\n"));
    let qr = qrcode::QrCode::new("https://m.mcd.cn/mcp/jumpToApp?orderId=123".as_bytes())
        .unwrap()
        .render::<qrcode::render::unicode::Dense1x2>()
        .quiet_zone(true)
        .build();
    let mut block = String::new();
    for line in qr.lines() {
        block.push_str(&format!("    {}\n", line));
    }
    let tail = format!("  💳 支付链接: {}\n  📱 扫码支付 (麦当劳APP):\n{}\n", url, block);
    assert!(out.ends_with(&tail));
    assert!(block.len() > 100);
}

#[test]
fn order_view_qr_modes() {
    let url = "https://m.mcd.cn/pay?orderId=123&x=1";
    let v = resp(obj(vec![("orderId", s("O2")), ("payH5Url", s(url))]));
    let shown: Vec<String> = vec!["a", "b", "c", "d"].into_iter().map(String::from).collect();
    let plain = format_order(&v, &shown, QrMode::Off);
    assert!(plain.ends_with(&format!("  💳 支付链接: {}\n", url)));
    assert!(!plain.contains("扫码支付"));
    let saved = format_order(&v, &shown, QrMode::Save);
    assert!(saved.ends_with(&format!("  💳 支付链接: {}\n  已经保存到 /tmp/mcd-qrcode/O2.png\n", url)));
    assert_eq!(
        qr_save_target(&v),
        Some(("https://m.mcd.cn/mcp/jumpToApp?orderId=123".to_string(), "/tmp/mcd-qrcode/O2.png".to_string()))
    );
    let w = resp(obj(vec![("payH5Url", s(url))]));
    assert_eq!(qr_save_target(&w).map(|t| t.1), Some("/tmp/mcd-qrcode/123.png".to_string()));
    let x = resp(obj(vec![("payH5Url", s("https://pay.example/p"))]));
    assert_eq!(qr_save_target(&x), Some(("https://pay.example/p".to_string(), "/tmp/mcd-qrcode/order.png".to_string())));
}

#[test]
fn price_view() {
    let v = resp(obj(vec![
        ("price", n(5000)),
        ("deliveryPrice", n(500)),
        ("packingPrice", n(0)),
        ("discount", n(200)),
        ("productList", arr(vec![obj(vec![("productName", s("巨无霸")), ("quantity", n(1)), ("subtotal", n(4700))])])),
        ("takeWayList", arr(vec![obj(vec![("code", s("1")), ("title", s("堂食")), ("subtitle", s("店内"))])])),
    ]));
    let want = format!(
        "\n💰 价格计算\n{}\n  巨无霸{} x1  ¥47.00\n\n  商品小计:     ¥45.00\n  配送费:       ¥5.00\n  优惠:        -¥2.00\n  ─────────────────────\n  实付合计:     ¥50.00\n\n  📦 取餐方式:\n     堂食 — 店内 (code: 1)\n\n",
        rule(50),
        " ".repeat(16)
    );
    assert_eq!(format_price(&v), want);
}

#[test]
fn calendar_view_falls_back_to_article() {
    let v = resp(obj(vec![("dailyList", arr(vec![obj(vec![
        ("dateText", s("1月1日")),
        ("events", arr(vec![obj(vec![
            ("activityTitle", s("")),
            ("articleDto", obj(vec![("title", s("新品")), ("content", s(" 第一行 \n\n第二行\r\n"))])),
        ])])),
    ])]))]));
    let want = format!("\n📅 活动日历\n{}\n\n  📆 1月1日\n     • 新品\n       第一行\n       第二行\n\n", rule(50));
    assert_eq!(format_calendar(&v), want);
    let empty = resp(obj(vec![("dailyList", arr(vec![]))]));
    assert_eq!(format_calendar(&empty), format!("\n📅 活动日历\n{}\n  (暂无活动)\n\n", rule(50)));
}

#[test]
fn nutrition_view_table() {
    let text = "[2]{name,energyKj}:\n薯条,1000\n 可乐,600 \n";
    let want = format!(
        "\n🥗 餐品营养信息\n{}\n",
        table(vec![vec!["name", "energyKj"], vec!["薯条", "1000"], vec!["可乐", "600"]])
    );
    assert_eq!(format_nutrition(text), want);
    assert_eq!(format_nutrition("no header"), "\n🥗 餐品营养信息\n  (无法解析数据)\n\n");
}

#[test]
fn address_table() {
    let empty = resp(obj(vec![("addresses", arr(vec![]))]));
    assert_eq!(format_addresses(&empty), "\n📍 配送地址\n  (暂无配送地址)\n\n");
    let v = resp(obj(vec![("addresses", arr(vec![obj(vec![
        ("contactName", s("张三")),
        ("phone", s("138")),
        ("fullAddress", s("北京")),
        ("storeCode", s("S1")),
    ])]))]));
    let want = format!(
        "\n📍 配送地址\n{}\n",
        table(vec![
            vec!["联系人", "电话", "地址", "门店", "storeCode", "beCode"],
            vec!["张三", "138", "北京", "-", "S1", "-"],
        ])
    );
    assert_eq!(format_addresses(&v), want);
    assert!(want.contains('┌'));
}

#[test]
fn nearby_and_products_tables() {
    let v = resp(arr(vec![obj(vec![("storeCode", s("S1")), ("storeName", s("王府井")), ("distance", n(120))])]));
    let want = format!(
        "\n📍 附近门店\n{}\n",
        table(vec![vec!["门店编码", "门店名称", "距离", "地址"], vec!["S1", "王府井", "120m", "-"]])
    );
    assert_eq!(format_nearby(&v), want);
    assert_eq!(format_nearby(&resp(arr(vec![]))), "\n📍 附近门店\n  (未找到门店)\n\n");
    let p = resp(arr(vec![obj(vec![("spuName", s("杯")), ("point", s("99")), ("spuId", n(3))])]));
    let want = format!(
        "\n🎁 积分商城\n{}\n",
        table(vec![vec!["商品名称", "所需积分", "spuId", "skuId", "卖点"], vec!["杯", "99", "3", "0", ""]])
    );
    assert_eq!(format_mall_products(&p), want);
}

#[test]
fn coupon_tables() {
    let mine = resp(obj(vec![("coupons", arr(vec![obj(vec![
        ("title", s("T")),
        ("code", s("C")),
        ("instructions", obj(vec![
            ("availableTime", arr(vec![obj(vec![("text", s("今日"))])])),
            ("labels", arr(vec![])),
        ])),
    ])]))]));
    let want = format!(
        "\n🎫 优惠券\n{}\n",
        table(vec![vec!["券名", "券码", "有效期", "状态"], vec!["T", "C", "今日", "-"]])
    );
    assert_eq!(format_coupons(&mine), want);
    assert_eq!(format_coupons(&resp(obj(vec![("coupons", arr(vec![]))]))), "\n🎫 优惠券\n  (暂无优惠券)\n\n");
    let store = resp(arr(vec![obj(vec![
        ("title", s("满减")),
        ("couponId", s("1")),
        ("products", arr(vec![obj(vec![("productName", s("A"))]), obj(vec![("x", n(1))]), obj(vec![("productName", s("B"))])])),
    ])]));
    let want = format!(
        "\n🎫 优惠券\n{}\n",
        table(vec![vec!["券名", "券ID", "券码", "有效期", "适用商品"], vec!["满减", "1", "-", "-", "A, B"]])
    );
    assert_eq!(format_coupons(&store), want);
    assert_eq!(format_coupons(&resp(Json::Null)), "\n🎫 优惠券\n  (暂无可用优惠券)\n\n");
}

#[test]
fn catering_table_with_promotions() {
    let v = resp(obj(vec![
        ("mealAssistanceItems", arr(vec![obj(vec![
            ("gmServiceCode", s("G1")),
            ("gmServiceName", s("助餐")),
            ("serviceItems", arr(vec![s("a"), n(1), s("b")])),
            ("enable", Json::Bool(true)),
        ])])),
        ("promotions", arr(vec![s("满100减10"), n(5)])),
    ]));
    let want = format!(
        "\n🍱 助餐服务\n{}\n{}\n\n  🎁 阶梯优惠:\n     • 满100减10\n\n",
        rule(50),
        table(vec![vec!["服务编码", "服务名称", "服务内容", "状态"], vec!["G1", "助餐", "a; b", "可选"]])
    );
    assert_eq!(format_catering(&v), want);
    let none = resp(obj(vec![("mealAssistanceItems", arr(vec![]))]));
    assert_eq!(format_catering(&none), format!("\n🍱 助餐服务\n{}\n  (当前门店无可选助餐服务)\n\n", rule(50)));
}

#[test]
fn mall_orders_table_with_next_page() {
    let v = resp(arr(vec![obj(vec![
        ("list", arr(vec![obj(vec![
            ("orderId", s("A")),
            ("orderStatusTitle", s("已完成")),
            ("totalCount", n(2)),
            ("goods", arr(vec![obj(vec![("spuName", s("杯"))]), obj(vec![("spuName", s("碗"))])])),
        ])])),
        ("hasNext", Json::Bool(true)),
        ("lastId", n(99)),
    ])]));
    let want = format!(
        "\n🛒 商城订单\n{}\n\n  ➡️  还有更多订单，翻页请用 --last-id 99\n\n",
        table(vec![vec!["订单号", "状态", "商品", "数量"], vec!["A", "已完成", "杯, 碗", "2"]])
    );
    assert_eq!(format_mall_orders(&v), want);
}

#[test]
fn menu_table_tags_and_lookup() {
    let v = resp(obj(vec![
        ("categories", arr(vec![obj(vec![
            ("name", s("汉堡\n类\r")),
            ("meals", arr(vec![obj(vec![("code", s("C1")), ("tags", arr(vec![s("新品")]))]), obj(vec![("code", s("C2"))]), obj(vec![("code", s("C3"))])])),
        ])])),
        ("meals", obj(vec![
            ("C1", obj(vec![("name", s("巨无霸")), ("currentPrice", s("25")), ("discountType", s("随单购特惠"))])),
            ("C2", obj(vec![("name", s("薯条")), ("currentPrice", s("10")), ("canWithOrder", Json::Bool(true))])),
        ])),
    ]));
    let want = format!(
        "\n🍔 菜单\n{}\n",
        table(vec![
            vec!["分类", "餐品编码", "餐品名称", "价格", "标签"],
            vec!["汉堡 类", "C1", "巨无霸", "¥25", "新品, 随单购"],
            vec!["汉堡 类", "C2", "薯条", "¥10", "随单购"],
            vec!["汉堡 类", "C3", "未知", "¥-", ""],
        ])
    );
    assert_eq!(format_menu(&v), want);
}

fn meal_data() -> Json {
    obj(vec![
        ("name", s("套餐")),
        ("code", s("M")),
        ("supportModify", Json::Bool(true)),
        ("rounds", arr(vec![obj(vec![
            ("name", s("主食")),
            ("minQuantity", n(1)),
            ("maxQuantity", n(1)),
            ("quantity", n(1)),
            ("choices", arr(vec![
                obj(vec![("name", s("汉堡")), ("diffPrice", s("+ ¥0")), ("isDefault", n(1))]),
                obj(vec![
                    ("name", s("鸡肉卷")),
                    ("diffPrice", s("+ ¥2")),
                    ("supportModify", Json::Bool(true)),
                    ("modification", obj(vec![("items", arr(vec![obj(vec![
                        ("minValues", n(0)),
                        ("maxValues", n(1)),
                        ("values", arr(vec![obj(vec![("name", s("少冰")), ("selectedQuantity", n(1))]), obj(vec![("name", s("去冰"))])])),
                    ])]))])),
                ]),
            ])),
        ])])),
    ])
}

#[test]
fn meal_detail_view() {
    let v = resp(meal_data());
    let head = format!(
        "\n🔍 餐品详情\n{}\n  名称: 套餐 (该商品可特调)\n  编码: M\n\n  🔄 选配:\n  轮次1【主食】 (选1~1项, 已选1)*\n    1. 汉堡 ¥0 [默认]\n    2. 鸡肉卷 + ¥2 【可特调】\n",
        rule(50)
    );
    let tail = "\n  当前默认搭配:\n    主食: 汉堡\n  提示: 用 select 命令可交互选配并生成下单 items JSON\n\n";
    assert_eq!(format_meal_detail(&v, false), format!("{}{}", head, tail));
    assert_eq!(
        format_meal_detail(&v, true),
        format!("{}        特调组: ✓少冰 / ✗去冰 (选0~1)\n{}", head, tail)
    );
}

#[test]
fn meal_detail_own_modifications_and_many_values() {
    let values: Vec<Json> = (1..=6).map(|k| obj(vec![("name", s(&format!("v{}", k)))])).collect();
    let v = resp(obj(vec![
        ("name", s("可乐")),
        ("modification", obj(vec![("items", arr(vec![obj(vec![("minValues", n(1)), ("maxValues", n(2)), ("values", arr(values))])]))])),
    ]));
    let want = format!(
        "\n🔍 餐品详情\n{}\n  名称: 可乐\n  编码: -\n\n  可特调项:\n        特调组: ✗v1 / ✗v2 / ✗v3 / ✗v4 / ✗v5 / ... (选1~2)\n\n  当前默认搭配:\n    -\n  提示: 用 select 命令可交互选配并生成下单 items JSON\n\n",
        rule(50)
    );
    assert_eq!(format_meal_detail(&v, true), want);
}

#[test]
fn dispatch_by_data_members() {
    let mut opts = FormatOptions::new();
    let none: Vec<String> = Vec::new();
    let ok = obj(vec![("success", Json::Bool(true)), ("code", n(200)), ("message", s("ok"))]);
    assert_eq!(response_kind(&ok), ResponseKind::Outcome);
    assert_eq!(pretty_print_json(&ok, &opts, &none).as_deref(), Some("✅ 成功 (code: 200): ok"));
    let bad = obj(vec![("success", Json::Bool(false)), ("code", n(500)), ("message", s("bad"))]);
    assert_eq!(pretty_print_json(&bad, &opts, &none).as_deref(), Some("❌ 失败 (code: 500): bad"));
    let raw = obj(vec![("foo", n(1))]);
    assert_eq!(response_kind(&raw), ResponseKind::Raw);
    assert_eq!(pretty_print_json(&raw, &opts, &none), None);
    let menu = resp(obj(vec![("categories", arr(vec![])), ("meals", obj(vec![]))]));
    assert_eq!(response_kind(&menu), ResponseKind::Menu);
    assert_eq!(response_kind(&resp(arr(vec![obj(vec![("storeCode", s("1"))])]))), ResponseKind::Nearby);
    assert_eq!(response_kind(&resp(arr(vec![obj(vec![("spuName", s("1"))])]))), ResponseKind::MallProducts);
    assert_eq!(response_kind(&resp(arr(vec![obj(vec![("list", arr(vec![]))])]))), ResponseKind::MallOrders);
    assert_eq!(response_kind(&resp(arr(vec![obj(vec![("title", s("1"))])]))), ResponseKind::Coupons);
    assert_eq!(response_kind(&resp(s("x,protein,y"))), ResponseKind::Nutrition);
    assert_eq!(response_kind(&resp(s("nothing"))), ResponseKind::Raw);
    assert_eq!(response_kind(&resp(obj(vec![("orderId", s("1"))]))), ResponseKind::Order);
    assert_eq!(response_kind(&resp(obj(vec![("goods", arr(vec![])), ("orderStatusTitle", s("x"))]))), ResponseKind::MallOrderDetail);
    assert_eq!(response_kind(&resp(obj(vec![("rounds", arr(vec![]))]))), ResponseKind::MealDetail);
    assert_eq!(response_kind(&resp(obj(vec![("addresses", arr(vec![]))]))), ResponseKind::Addresses);
    assert_eq!(response_kind(&resp(obj(vec![("productList", arr(vec![]))]))), ResponseKind::Price);
    assert_eq!(response_kind(&resp(obj(vec![("coupons", arr(vec![]))]))), ResponseKind::Coupons);
    assert_eq!(response_kind(&resp(obj(vec![("availablePoint", s("1"))]))), ResponseKind::Account);
    assert_eq!(response_kind(&resp(obj(vec![("timestamp", n(1))]))), ResponseKind::Time);
    assert_eq!(response_kind(&resp(obj(vec![("detail", s("d")), ("spuName", s("x"))]))), ResponseKind::MallDetail);
    assert_eq!(response_kind(&resp(obj(vec![("orderNo", s("1"))]))), ResponseKind::MallOrder);
    assert_eq!(response_kind(&resp(obj(vec![("dailyList", arr(vec![]))]))), ResponseKind::Calendar);
    assert_eq!(response_kind(&resp(obj(vec![("mealAssistanceItems", arr(vec![]))]))), ResponseKind::Catering);
    assert_eq!(response_kind(&resp(arr(vec![]))), ResponseKind::Raw);
    assert_eq!(response_kind(&obj(vec![("data", obj(vec![])), ("success", Json::Bool(true)), ("code", n(0)), ("message", s(""))])), ResponseKind::Outcome);
    let time = resp(obj(vec![("timestamp", n(1)), ("formatted", s("F"))]));
    assert_eq!(pretty_print_json(&time, &opts, &none).as_deref(), Some("\n🕐 当前时间: F - (-)\n\n"));
    let meal = resp(meal_data());
    let plain = pretty_print_json(&meal, &opts, &none).unwrap();
    set_show_mods(&mut opts, true);
    assert!(opts.show_mods);
    let with_mods = pretty_print_json(&meal, &opts, &none).unwrap();
    assert!(!plain.contains("特调组"));
    assert!(with_mods.contains("        特调组: ✓少冰 / ✗去冰 (选0~1)\n"));
}

#[test]
fn renderable_responses() {
    let big = resp(obj(vec![("productList", arr(vec![])), ("price", n(i64::MIN)), ("deliveryPrice", n(1))]));
    assert!(!can_render(&big));
    let fine = resp(obj(vec![("productList", arr(vec![])), ("price", n(100)), ("deliveryPrice", n(1))]));
    assert!(can_render(&fine));
    assert!(!can_render(&resp(s("}:{protein"))));
    assert!(can_render(&resp(s("[1]{protein}:\n1"))));
    assert!(can_render(&obj(vec![("foo", n(1))])));
}
