use mcd_cli::json::Json;
use mcd_cli::meal::{Choice, MealDetail, ModItem, ModSelection, ModValue, Modification, Round};
use mcd_cli::screens::{basket_count, category_rows, combo_sub_lines, detail_page, pane_at, DetailPage};
use mcd_cli::screens::{combo_popup_rows, combo_title};
use mcd_cli::menu_page::{menu_click, menu_key, menu_scroll, MenuAction, MenuKey, MenuLayout, MenuPage, MenuScroll};
use mcd_cli::quick::{QuickAction, QuickEvent, QuickOrder, QuickStage};
use mcd_cli::screens::{
    basket_row_lines, empty_basket_note, menu_item_rows, menu_pane_titles, menu_pick, menu_search_line, MenuPick,
};
use mcd_cli::screens::{
    add_to_basket, combo_flat, combo_move, focus_after, go_back, key_effect, menu_categories, menu_items,
    price_page, product_item, remove_selected, store_items, visible_menu, BasketItem, FocusKey, GlobalKey,
    KeyEffect, MenuFocus, MenuItem, Screen,
};
use mcd_cli::session::{
    answer_or, answer_text, asks_service_code, asks_take_way, confirmed, coupon_choice, mall_choice, menu_choice,
    optional_answer, parse_i32_or, parse_i64, parse_i64_or, parse_optional_i64, read_answer, CouponChoice,
    MallChoice, MenuChoice,
};

fn js(x: &str) -> Json {
    Json::Str(x.to_string())
}

fn jn(x: i64) -> Json {
    Json::Int(x)
}

fn jo(p: Vec<(&str, Json)>) -> Json {
    Json::Object(p.into_iter().map(|(k, v)| (k.to_string(), v)).collect())
}

fn member<'a>(v: &'a Json, key: &str) -> Option<&'a Json> {
    match v {
        Json::Object(es) => es.iter().find(|(k, _)| k == key).map(|(_, v)| v),
        _ => None,
    }
}

#[test]
fn main_menu_answers() {
    assert_eq!(menu_choice("1"), MenuChoice::TestConnection);
    assert_eq!(menu_choice("10"), MenuChoice::AddressAdd);
    assert_eq!(menu_choice("16"), MenuChoice::QuickOrder);
    assert_eq!(menu_choice("17"), MenuChoice::OrderQuery);
    assert_eq!(menu_choice("0"), MenuChoice::Quit);
    assert_eq!(menu_choice("quit"), MenuChoice::Quit);
    assert_eq!(menu_choice("exit"), MenuChoice::Quit);
    assert_eq!(menu_choice("q"), MenuChoice::Quit);
    assert_eq!(menu_choice("18"), MenuChoice::Invalid);
    assert_eq!(menu_choice(""), MenuChoice::Invalid);
    assert_eq!(coupon_choice("a"), CouponChoice::Mine);
    assert_eq!(coupon_choice("c"), CouponChoice::Receive);
    assert_eq!(coupon_choice("d"), CouponChoice::Invalid);
    assert_eq!(mall_choice("f"), MallChoice::OrderDetail);
    assert_eq!(mall_choice("A"), MallChoice::Invalid);
}

#[test]
fn integer_answers_with_defaults() {
    assert_eq!(parse_i32_or("", 2), 2);
    assert_eq!(parse_i32_or("5", 2), 5);
    assert_eq!(parse_i32_or("+7", 2), 7);
    assert_eq!(parse_i32_or("-7", 2), -7);
    assert_eq!(parse_i32_or("-", 2), 2);
    assert_eq!(parse_i32_or("+", 2), 2);
    assert_eq!(parse_i32_or("1a", 2), 2);
    assert_eq!(parse_i32_or(" 1", 2), 2);
    assert_eq!(parse_i32_or("2147483647", 0), 2147483647);
    assert_eq!(parse_i32_or("2147483648", 0), 0);
    assert_eq!(parse_i32_or("-2147483648", 0), -2147483648);
    assert_eq!(parse_i64("9223372036854775807"), Some(i64::MAX));
    assert_eq!(parse_i64("-9223372036854775808"), Some(i64::MIN));
    assert_eq!(parse_i64("9223372036854775808"), None);
    assert_eq!(parse_i64("-+1"), None);
    assert_eq!(parse_i64_or("x", 10), 10);
    assert_eq!(parse_optional_i64(Some("42")), Some(42));
    assert_eq!(parse_optional_i64(Some("4 2")), None);
    assert_eq!(parse_optional_i64(None), None);
    for t in ["0", "12", "-3", "+4", "", "-", "x", "99999999999"] {
        assert_eq!(parse_i64(t), t.parse::<i64>().ok());
        assert_eq!(parse_i32_or(t, -1), t.parse::<i32>().unwrap_or(-1));
    }
}

#[test]
fn answers_and_follow_up_questions() {
    assert_eq!(answer_text("  abc \n"), "abc");
    assert_eq!(optional_answer("  \n"), None);
    assert_eq!(optional_answer(" x \n").as_deref(), Some("x"));
    assert_eq!(read_answer(0, ""), None);
    assert_eq!(read_answer(3, " y\n").as_deref(), Some("y"));
    assert_eq!(read_answer(1, "\n").as_deref(), Some(""));
    assert!(asks_take_way(1, 2));
    assert!(asks_take_way(2, 5));
    assert!(!asks_take_way(2, 2));
    assert!(asks_service_code(6));
    assert!(!asks_service_code(2));
    assert!(confirmed("y"));
    assert!(confirmed("Y"));
    assert!(!confirmed("yes"));
    assert_eq!(answer_or("", "2"), "2");
    assert_eq!(answer_or("1", "2"), "1");
}

#[test]
fn back_navigation() {
    assert_eq!(go_back(Screen::StoreList, false), (Screen::StoreSearch, false, "已返回".to_string()));
    assert_eq!(go_back(Screen::Menu, false), (Screen::StoreList, false, "已返回".to_string()));
    assert_eq!(go_back(Screen::Combo, false), (Screen::Menu, false, "已返回".to_string()));
    assert_eq!(go_back(Screen::Mods, true), (Screen::Menu, false, "已返回".to_string()));
    assert_eq!(go_back(Screen::Mods, false), (Screen::Combo, false, "已返回".to_string()));
    assert_eq!(go_back(Screen::Price, false), (Screen::Menu, false, "已返回".to_string()));
    assert_eq!(go_back(Screen::OrderResult, true), (Screen::Menu, true, "已返回".to_string()));
    assert_eq!(go_back(Screen::StoreSearch, false), (Screen::StoreSearch, false, "已返回".to_string()));
}

#[test]
fn focus_keys_round_trip() {
    for f in [MenuFocus::Category, MenuFocus::Items, MenuFocus::Basket] {
        let g = focus_after(f, FocusKey::Right).unwrap();
        assert_eq!(focus_after(g, FocusKey::Left), Some(f));
        let h = focus_after(f, FocusKey::Left).unwrap();
        assert_eq!(focus_after(h, FocusKey::Right), Some(f));
    }
    let mut f = MenuFocus::Search;
    let mut seen = Vec::new();
    for _ in 0..4 {
        f = focus_after(f, FocusKey::Tab).unwrap();
        seen.push(f);
    }
    assert_eq!(seen, vec![MenuFocus::Category, MenuFocus::Items, MenuFocus::Basket, MenuFocus::Search]);
    assert_eq!(focus_after(MenuFocus::Search, FocusKey::Right), None);
    assert_eq!(focus_after(MenuFocus::Search, FocusKey::Slash), None);
    assert_eq!(focus_after(MenuFocus::Items, FocusKey::Slash), Some(MenuFocus::Search));
}

#[test]
fn global_keys() {
    assert_eq!(key_effect(Screen::StoreSearch, MenuFocus::Items, GlobalKey::Quit), KeyEffect::Exit);
    assert_eq!(key_effect(Screen::Menu, MenuFocus::Items, GlobalKey::Quit), KeyEffect::Back);
    assert_eq!(key_effect(Screen::Menu, MenuFocus::Search, GlobalKey::Escape), KeyEffect::Page);
    assert_eq!(key_effect(Screen::Menu, MenuFocus::Items, GlobalKey::Escape), KeyEffect::Back);
    assert_eq!(key_effect(Screen::StoreSearch, MenuFocus::Items, GlobalKey::Escape), KeyEffect::Page);
    assert_eq!(key_effect(Screen::Price, MenuFocus::Items, GlobalKey::Other), KeyEffect::Page);
}

fn entry(cat: &str, name: &str) -> MenuItem {
    MenuItem { code: name.to_string(), name: name.to_string(), price: "1".to_string(), category: cat.to_string(), with_order: false }
}

#[test]
fn categories_once_each_and_filtering() {
    let items = vec![entry("汉堡", "巨无霸"), entry("小食", "薯条"), entry("汉堡", "麦辣鸡腿堡"), entry("饮料", "可乐")];
    let cats = menu_categories(&items);
    assert_eq!(cats, vec!["汉堡", "小食", "饮料"]);
    assert_eq!(visible_menu(&items, &cats, Some(0), ""), vec![0, 1, 2, 3]);
    assert_eq!(visible_menu(&items, &cats, Some(1), ""), vec![0, 2]);
    assert_eq!(visible_menu(&items, &cats, Some(1), "鸡"), vec![2]);
    assert_eq!(visible_menu(&items, &cats, None, "薯"), vec![1]);
    assert_eq!(visible_menu(&items, &cats, Some(9), ""), vec![0, 1, 2, 3]);
}

fn choice(code: &str) -> Choice {
    Choice {
        code: code.to_string(),
        name: code.to_string(),
        quantity: 0,
        max_quantity: 1,
        is_default: 0,
        diff_price: None,
        support_modify: false,
        modification: None,
    }
}

fn round(id: i64, name: &str, min: i64, max: i64, choices: Vec<Choice>) -> Round {
    Round { id, name: name.to_string(), quantity: 0, max_quantity: max, min_quantity: min, choices }
}

#[test]
fn combo_rows_and_cursor() {
    let rounds = vec![round(1, "主食", 1, 1, vec![choice("a"), choice("b")]), round(2, "饮料", 1, 1, vec![choice("c")])];
    let flat = combo_flat(&rounds);
    assert_eq!(flat, vec![(0, None), (0, Some(0)), (0, Some(1)), (1, None), (1, Some(0))]);
    assert_eq!(combo_move(&flat, Some(0), false), Some(1));
    assert_eq!(combo_move(&flat, Some(2), false), Some(4));
    assert_eq!(combo_move(&flat, Some(4), false), Some(1));
    assert_eq!(combo_move(&flat, Some(1), true), Some(4));
    assert_eq!(combo_move(&flat, None, true), Some(4));
    assert_eq!(combo_move(&flat, Some(5), true), Some(4));
    assert_eq!(combo_move(&flat, Some(7), false), Some(4));
    assert_eq!(combo_move(&flat, Some(usize::MAX - 1), false), Some(1));
    for i in 0..flat.len() {
        for up in [true, false] {
            let r = combo_move(&flat, Some(i), up).unwrap();
            assert!(flat[r].1.is_some());
        }
    }
    let headings = vec![(0, None), (1, None)];
    assert_eq!(combo_move(&headings, Some(1), false), Some(1));
    let empty: Vec<(usize, Option<usize>)> = Vec::new();
    assert_eq!(combo_move(&empty, Some(3), true), Some(3));
}

#[test]
fn basket_merges_by_label() {
    let mut basket: Vec<BasketItem> = Vec::new();
    add_to_basket(&mut basket, "可乐".to_string(), 1, product_item("C1"), String::new());
    add_to_basket(&mut basket, "薯条".to_string(), 2, product_item("F1"), String::new());
    add_to_basket(&mut basket, "可乐".to_string(), 3, product_item("C1"), String::new());
    assert_eq!(basket.len(), 2);
    assert_eq!(basket[0].qty, 4);
    assert_eq!(basket[1].qty, 2);
    match member(&basket[0].item, "quantity") {
        Some(Json::UInt(4)) => {},
        other => panic!("unexpected quantity {:?}", other),
    }
    match member(&basket[0].item, "productCode") {
        Some(Json::Str(c)) => assert_eq!(c, "C1"),
        other => panic!("unexpected code {:?}", other),
    }
    let labels: Vec<&str> = basket.iter().map(|b| b.label.as_str()).collect();
    assert_eq!(labels, vec!["可乐", "薯条"]);
}

#[test]
fn basket_removal_cursor() {
    let mut b = vec![1, 2, 3];
    assert_eq!(remove_selected(&mut b, Some(2)), Some(1));
    assert_eq!(b, vec![1, 2]);
    assert_eq!(remove_selected(&mut b, Some(0)), Some(0));
    assert_eq!(b, vec![2]);
    assert_eq!(remove_selected(&mut b, Some(5)), Some(5));
    assert_eq!(b, vec![2]);
    assert_eq!(remove_selected(&mut b, Some(0)), None);
    assert!(b.is_empty());
    assert_eq!(remove_selected(&mut b, None), None);
}

#[test]
fn store_and_menu_lists() {
    let data = Json::Array(vec![
        jo(vec![("storeCode", js("S1")), ("storeName", js("王府井")), ("distance", jn(50))]),
        jo(vec![("address", js("路1"))]),
    ]);
    let stores = store_items(&data);
    assert_eq!(stores.len(), 2);
    assert_eq!((stores[0].code.as_str(), stores[0].name.as_str(), stores[0].distance.as_str()), ("S1", "王府井", "50m"));
    assert_eq!((stores[1].code.as_str(), stores[1].distance.as_str(), stores[1].address.as_str()), ("-", "", "路1"));
    assert!(store_items(&Json::Null).is_empty());
    let menu = jo(vec![
        ("categories", Json::Array(vec![jo(vec![("name", js("饮料")), ("meals", Json::Array(vec![jo(vec![("code", js("C"))]), jo(vec![("code", js("D"))])]))])])),
        ("meals", jo(vec![("C", jo(vec![("name", js("可乐")), ("currentPrice", js("9")), ("discountType", js("随单购"))]))])),
    ]);
    let items = menu_items(&menu);
    assert_eq!(items.len(), 2);
    assert_eq!((items[0].name.as_str(), items[0].price.as_str(), items[0].category.as_str(), items[0].with_order), ("可乐", "9", "饮料", true));
    assert_eq!((items[1].name.as_str(), items[1].price.as_str(), items[1].with_order), ("-", "-", false));
}

#[test]
fn price_page_lines_and_ways() {
    let d = jo(vec![
        ("price", jn(1500)),
        ("packingPrice", jn(100)),
        ("discount", jn(0)),
        ("productList", Json::Array(vec![jo(vec![("productName", js("汉堡")), ("quantity", jn(1)), ("subtotal", jn(1400))])])),
        ("takeWayList", Json::Array(vec![jo(vec![("title", js("外带")), ("code", js("2"))])])),
    ]);
    let (lines, ways) = price_page(&d);
    assert_eq!(lines, vec!["汉堡 x1  ¥14.00", "打包费  ¥1.00", "实付合计  ¥15.00"]);
    assert_eq!(ways, vec![("外带 — ".to_string(), "2".to_string())]);
}

#[test]
fn menu_page_decisions_and_texts() {
    let product = MealDetail {
        code: "P".to_string(),
        name: "可乐".to_string(),
        image: None,
        support_modify: false,
        modification: None,
        rounds: Vec::new(),
    };
    assert_eq!(detail_page(&product), DetailPage::AddProduct);
    let value = ModValue {
        code: "ice".to_string(),
        price: None,
        name: "去冰".to_string(),
        max_quantity: 1,
        min_quantity: 0,
        selected_quantity: 0,
        selected_key: "ice-on".to_string(),
        unselected_key: Some("ice-off".to_string()),
    };
    let m = Modification { items: vec![ModItem { max_values: 1, min_values: 0, values: vec![value] }] };
    let with_mods = MealDetail { modification: Some(m.clone()), ..product.clone() };
    assert_eq!(detail_page(&with_mods), DetailPage::ProductMods);
    let empty_mods = MealDetail { modification: Some(Modification { items: Vec::new() }), ..product.clone() };
    assert_eq!(detail_page(&empty_mods), DetailPage::AddProduct);
    let mut c = choice("3050");
    c.name = "可乐".to_string();
    c.modification = Some(m);
    let combo = MealDetail { rounds: vec![round(1, "主食", 1, 1, vec![choice("1600")]), round(2, "饮料", 1, 1, vec![c])], ..product };
    assert_eq!(detail_page(&combo), DetailPage::Combo);
    let sel = ModSelection {
        values: vec![jo(vec![("code", js("ice")), ("key", js("ice-on")), ("quantity", jn(1))])],
    };
    let lines = combo_sub_lines(&combo, &vec![vec![0], vec![0]], &vec![vec![None], vec![Some(sel)]]);
    assert_eq!(lines, vec!["1600", "可乐（去冰）"]);
    assert_eq!(pane_at(3, 10, 10, 20, 50), MenuFocus::Search);
    assert_eq!(pane_at(3, 11, 10, 20, 50), MenuFocus::Category);
    assert_eq!(pane_at(20, 11, 10, 20, 50), MenuFocus::Items);
    assert_eq!(pane_at(50, 11, 10, 20, 50), MenuFocus::Basket);
    assert_eq!(category_rows(&vec!["汉堡".to_string()]), vec!["  全部 ", "  汉堡 "]);
    let mut basket: Vec<BasketItem> = Vec::new();
    add_to_basket(&mut basket, "a".to_string(), 2, product_item("A"), String::new());
    add_to_basket(&mut basket, "b".to_string(), 5, product_item("B"), String::new());
    assert_eq!(basket_count(&basket), 7);
}

#[test]
fn menu_page_text() {
    let mut a = entry("汉堡", "巨无霸");
    a.price = "25".to_string();
    let mut b = entry("小食", "薯条");
    b.with_order = true;
    b.price = "9.5".to_string();
    let items = vec![a, b];
    assert_eq!(menu_item_rows(&items, &vec![1, 0]), vec![" 薯条 ¥9.5 [随单购]", " 巨无霸 ¥25"]);
    assert_eq!(
        menu_pane_titles(2, 13),
        (" 餐品（2 件） ".to_string(), " 购物篮（13 件） ".to_string())
    );
    assert_eq!(menu_search_line("鸡", true), "鸡▎");
    assert_eq!(menu_search_line("鸡", false), "鸡");
    assert_eq!(empty_basket_note(), "空，去菜单加购吧\n\n选中购物篮后:\nd 删除 · p 计价 · c 清空");
    let combo = BasketItem { label: "套餐".to_string(), qty: 2, item: Json::Null, detail: "主食: 汉堡 + 饮料: 可乐 (少冰)".to_string() };
    assert_eq!(basket_row_lines(&combo), vec![" 套餐 x2", "   · 主食: 汉堡", "   · 饮料: 可乐 (少冰)"]);
    let single = BasketItem { label: "可乐".to_string(), qty: 1, item: Json::Null, detail: String::new() };
    assert_eq!(basket_row_lines(&single), vec![" 可乐 x1"]);
    match menu_pick(&items, &vec![1, 0], Some(0)) {
        MenuPick::Refused(t) => assert_eq!(t, "⚠️ 随单购商品不能单独下单（会按原价结算）"),
        other => panic!("{:?}", other),
    }
    match menu_pick(&items, &vec![1, 0], Some(1)) {
        MenuPick::Load(k, t) => {
            assert_eq!(k, 0);
            assert_eq!(t, "正在加载 巨无霸 详情...");
        },
        other => panic!("{:?}", other),
    }
    assert!(matches!(menu_pick(&items, &vec![1, 0], Some(2)), MenuPick::Nothing));
    assert!(matches!(menu_pick(&items, &vec![1, 0], None), MenuPick::Nothing));
}

#[test]
fn combo_page_rows() {
    let mut b = choice("b");
    b.diff_price = Some("+ ¥2".to_string());
    b.support_modify = true;
    let rounds = vec![round(1, "主食", 1, 1, vec![choice("a"), b]), round(2, "饮料", 1, 2, vec![choice("c")])];
    let d = MealDetail {
        code: "M".to_string(),
        name: "套餐".to_string(),
        image: None,
        support_modify: false,
        modification: None,
        rounds: rounds.clone(),
    };
    let flat = combo_flat(&rounds);
    let toggles = vec![vec![true, false], vec![false]];
    let rows = combo_popup_rows(&d, &toggles, &flat);
    let a_price = match &d.rounds[0].choices[0].diff_price {
        Some(p) => p.clone(),
        None => String::new(),
    };
    assert_eq!(
        rows,
        vec![
            "  ── 轮次1/2【主食】 选1~1项 ──".to_string(),
            format!("■ a {}", a_price),
            "□ b + ¥2 [可特调]".to_string(),
            "  ── 轮次2/2【饮料】 选1~2项 ──".to_string(),
            format!("□ c {}", a_price),
        ]
    );
    assert_eq!(combo_title(&d), " 套餐 ");
}

#[test]
fn menu_page_keys_clicks_and_wheel() {
    let mut p = MenuPage::open(3, None);
    assert_eq!((p.focus, p.category, p.item, p.basket), (MenuFocus::Items, Some(0), Some(0), None));
    assert_eq!(menu_key(&mut p, MenuKey::Down, 2, 3, 1), MenuAction::Stay);
    assert_eq!(p.item, Some(1));
    assert_eq!(menu_key(&mut p, MenuKey::Enter, 2, 3, 1), MenuAction::Pick);
    assert_eq!(menu_key(&mut p, MenuKey::Char('/'), 2, 3, 1), MenuAction::Stay);
    assert_eq!(p.focus, MenuFocus::Search);
    menu_key(&mut p, MenuKey::Char('鸡'), 2, 3, 1);
    menu_key(&mut p, MenuKey::Char('k'), 2, 3, 1);
    assert_eq!(p.search, "鸡k");
    assert_eq!(p.item, Some(0));
    menu_key(&mut p, MenuKey::Backspace, 2, 3, 1);
    assert_eq!(p.search, "鸡");
    menu_key(&mut p, MenuKey::Esc, 2, 3, 1);
    assert_eq!(p.focus, MenuFocus::Items);
    menu_key(&mut p, MenuKey::Left, 2, 3, 1);
    assert_eq!(p.focus, MenuFocus::Category);
    p.item = Some(2);
    menu_key(&mut p, MenuKey::Char('k'), 2, 3, 1);
    assert_eq!((p.category, p.item), (Some(2), Some(0)));
    menu_key(&mut p, MenuKey::Char('b'), 2, 3, 1);
    assert_eq!(p.focus, MenuFocus::Basket);
    assert_eq!(menu_key(&mut p, MenuKey::Char('d'), 2, 3, 1), MenuAction::Remove);
    assert_eq!(menu_key(&mut p, MenuKey::Char('c'), 2, 3, 1), MenuAction::Clear);
    assert_eq!(menu_key(&mut p, MenuKey::Char('p'), 2, 3, 1), MenuAction::Price);
    menu_key(&mut p, MenuKey::Char('l'), 2, 3, 1);
    assert_eq!(p.focus, MenuFocus::Items);
    menu_key(&mut p, MenuKey::Tab, 2, 3, 1);
    assert_eq!(p.focus, MenuFocus::Basket);

    let l = MenuLayout { top: 1, pane_top: 6, categories_right: 20, items_right: 60 };
    let sc = MenuScroll { category: 0, items: 1, basket: 0 };
    menu_click(&mut p, 5, 1, &l, &sc, 2, 3, 1);
    assert_eq!(p.focus, MenuFocus::Search);
    p.item = Some(2);
    menu_click(&mut p, 5, 8, &l, &sc, 2, 3, 1);
    assert_eq!((p.focus, p.category, p.item), (MenuFocus::Category, Some(1), Some(0)));
    menu_click(&mut p, 30, 8, &l, &sc, 2, 3, 1);
    assert_eq!((p.focus, p.item), (MenuFocus::Items, Some(2)));
    menu_click(&mut p, 30, 30, &l, &sc, 2, 3, 1);
    assert_eq!(p.item, Some(2));
    menu_click(&mut p, 70, 7, &l, &sc, 2, 3, 1);
    assert_eq!((p.focus, p.basket), (MenuFocus::Basket, Some(0)));

    menu_scroll(&mut p, true, 2, 3, 4);
    assert_eq!(p.basket, Some(3));
    p.focus = MenuFocus::Category;
    p.item = Some(2);
    menu_scroll(&mut p, false, 2, 3, 4);
    assert_eq!((p.category, p.item), (Some(2), Some(2)));
}

#[test]
fn quick_order_steps() {
    let mut q = QuickOrder::new();
    assert_eq!(q.step(QuickEvent::Code(String::new())), QuickAction::Empty("购物篮为空，返回菜单".to_string()));
    assert_eq!(q.stage(), QuickStage::Done);

    let mut q = QuickOrder::new();
    assert_eq!(q.step(QuickEvent::Code("1600".to_string())), QuickAction::Fetch("1600".to_string()));
    assert_eq!(q.step(QuickEvent::Selected(jo(vec![("productCode", js("1600"))]))), QuickAction::Added("✅ 已加入购物篮，共 1 件".to_string()));
    assert_eq!(q.step(QuickEvent::Answer("y".to_string())), QuickAction::Nothing);
    assert_eq!(q.step(QuickEvent::Code(String::new())), QuickAction::Price);
    assert_eq!(q.basket().len(), 1);
    assert_eq!(q.step(QuickEvent::Answer("y".to_string())), QuickAction::Nothing);
    assert_eq!(q.step(QuickEvent::Priced(true)), QuickAction::Ask);
    assert_eq!(q.step(QuickEvent::Answer("Y".to_string())), QuickAction::Create);
    assert_eq!(q.stage(), QuickStage::Done);

    let mut q = QuickOrder::new();
    q.step(QuickEvent::Selected(jn(1)));
    q.step(QuickEvent::Code(String::new()));
    assert_eq!(q.step(QuickEvent::Priced(false)), QuickAction::Nothing);
    assert_eq!(q.stage(), QuickStage::Done);
    assert_eq!(q.step(QuickEvent::Answer("y".to_string())), QuickAction::Nothing);

    let mut q = QuickOrder::new();
    q.step(QuickEvent::Selected(jn(1)));
    q.step(QuickEvent::Code(String::new()));
    q.step(QuickEvent::Priced(true));
    assert_eq!(q.step(QuickEvent::Answer("yes".to_string())), QuickAction::Cancelled("已取消下单".to_string()));
}
