use mcd_cli::json::Json;
use mcd_cli::meal::{
    build_item_value, choice_line, default_choice, render_selection_summary, selected_mod_names, valid_codes,
    Choice, MealDetail, ModItem, ModSelection, ModValue, Modification, Round,
};
use mcd_cli::mods::{build_mod_groups, mod_group_start, single_step, toggle_step, ModGroupStart, SingleOutcome, ToggleOutcome};
use mcd_cli::mods::{mods_page_confirm, mods_page_toggle, PageConfirm};
use mcd_cli::text::split_text;
use mcd_cli::nav::{combo_done, initial_round_toggles, list_index_at, list_next, list_prev, toggle_choice, truncate_width};
use mcd_cli::pick::{parse_pick_spec, PickError};
use mcd_cli::prompt::{bool_answer, index_answer, pick_round_choices, round_header, round_prompt, RoundAnswer};

fn value(code: &str, name: &str, selected: i64, unselected: Option<&str>) -> ModValue {
    ModValue {
        code: code.to_string(),
        price: None,
        name: name.to_string(),
        max_quantity: 1,
        min_quantity: 0,
        selected_quantity: selected,
        selected_key: format!("{}-on", code),
        unselected_key: unselected.map(|s| s.to_string()),
    }
}

fn item(min: i64, max: i64, values: Vec<ModValue>) -> ModItem {
    ModItem { max_values: max, min_values: min, values }
}

fn ch(code: &str, name: &str, default: bool, modification: Option<Modification>) -> Choice {
    Choice {
        code: code.to_string(),
        name: name.to_string(),
        quantity: 0,
        max_quantity: 1,
        is_default: if default { 1 } else { 0 },
        diff_price: Some("+ ¥0".to_string()),
        support_modify: modification.is_some(),
        modification,
    }
}

fn rd(id: i64, name: &str, min: i64, max: i64, choices: Vec<Choice>) -> Round {
    Round { id, name: name.to_string(), quantity: 1, max_quantity: max, min_quantity: min, choices }
}

fn detail() -> MealDetail {
    MealDetail {
        code: "900".to_string(),
        name: "巨无霸套餐".to_string(),
        image: None,
        support_modify: false,
        modification: None,
        rounds: vec![
            rd(11, "主食", 1, 1, vec![ch("1600", "巨无霸", true, None), ch("1601", "麦辣鸡腿堡", false, None)]),
            rd(12, "饮料", 1, 2, vec![
                ch("3050", "可乐", true, Some(Modification { items: vec![item(0, 1, vec![value("i1", "去冰", 0, Some("i1-off"))])] })),
                ch("3051", "雪碧", false, None),
            ]),
        ],
    }
}

fn text_of(j: &Json) -> String {
    match j {
        Json::Null => "null".to_string(),
        Json::Bool(b) => b.to_string(),
        Json::Int(i) => i.to_string(),
        Json::UInt(u) => u.to_string(),
        Json::Float(f) => f.clone(),
        Json::Str(s) => format!("{:?}", s),
        Json::Array(a) => format!("[{}]", a.iter().map(text_of).collect::<Vec<_>>().join(",")),
        Json::Object(es) => format!("{{{}}}", es.iter().map(|(k, v)| format!("{:?}:{}", k, text_of(v))).collect::<Vec<_>>().join(",")),
    }
}

#[test]
fn pick_spec_accepts_rounds_in_any_order() {
    let d = detail();
    assert_eq!(parse_pick_spec(&d, "1=1600,2=3050").unwrap(), vec![vec![0], vec![0]]);
    assert_eq!(parse_pick_spec(&d, " 2 = 3051|3050 , 1=1601 ").unwrap(), vec![vec![1], vec![1, 0]]);
    assert_eq!(parse_pick_spec(&d, "1=1600,2=3050,3051").unwrap(), vec![vec![0], vec![0, 1]]);
}

#[test]
fn pick_spec_errors() {
    let d = detail();
    let msg = |spec: &str| parse_pick_spec(&d, spec).unwrap_err().message();
    assert_eq!(msg("x"), "选择规格无效: x");
    assert_eq!(msg("0=1600"), "轮次编号无效: 0");
    assert_eq!(msg("a=1600"), "轮次编号无效: a");
    assert_eq!(msg("1=,2=3050"), "轮次1【主食】未选择商品，有效编码: 1600, 1601");
    assert_eq!(msg("1=1600|1601,2=3050"), "轮次1【主食】选择数量无效，有效编码: 1600, 1601");
    assert_eq!(msg("1=1600,1=1601"), "轮次1【主食】重复指定，有效编码: 1600, 1601");
    assert_eq!(msg("1=9999"), "轮次1【主食】无效编码 9999，有效编码: 1600, 1601");
    assert_eq!(msg("1=1600,2=3050|3050"), "轮次2【饮料】重复编码 3050，有效编码: 3050, 3051");
    assert_eq!(msg("1=1600"), "轮次2【饮料】缺少选择，有效编码: 3050, 3051");
    assert!(matches!(parse_pick_spec(&d, "3=1"), Err(PickError::BadRound { .. })));
}

#[test]
fn item_json_for_picks() {
    let d = detail();
    let picks = vec![vec![0], vec![0, 1]];
    let sel = ModSelection { values: vec![Json::Str("v".to_string())] };
    let mods = vec![vec![None], vec![Some(sel), None]];
    let j = build_item_value(&d, 2, &picks, &mods, None);
    assert_eq!(
        text_of(&j),
        "{\"productCode\":\"900\",\"quantity\":2,\"roundList\":[{\"round\":\"11\",\"comboItemList\":[{\"code\":\"1600\",\"quantity\":1}]},{\"round\":\"12\",\"comboItemList\":[{\"code\":\"3050\",\"quantity\":1,\"modification\":{\"values\":[\"v\"]}},{\"code\":\"3051\",\"quantity\":1}]}]}"
    );
    let single = MealDetail { rounds: Vec::new(), ..detail() };
    let empty_sel = ModSelection { values: Vec::new() };
    assert_eq!(text_of(&build_item_value(&single, 1, &Vec::new(), &Vec::new(), Some(empty_sel))), "{\"productCode\":\"900\",\"quantity\":1}");
}

#[test]
fn selection_summary_lines() {
    let d = detail();
    let picks = vec![vec![0], vec![0]];
    let sel = ModSelection {
        values: vec![Json::Object(vec![
            ("code".to_string(), Json::Str("i1".to_string())),
            ("key".to_string(), Json::Str("i1-on".to_string())),
            ("quantity".to_string(), Json::Int(1)),
        ])],
    };
    assert_eq!(selected_mod_names(&d.rounds[1].choices[0], &sel), vec!["去冰"]);
    let mods = vec![vec![None], vec![Some(sel)]];
    assert_eq!(render_selection_summary(&d, &picks, &mods), "  主食: 巨无霸\n  饮料: 可乐 (特调: 去冰)");
    let none: Vec<Vec<usize>> = Vec::new();
    assert_eq!(render_selection_summary(&d, &none, &Vec::new()), "  巨无霸套餐");
}

#[test]
fn round_listing_and_answers() {
    let d = detail();
    assert_eq!(default_choice(&d.rounds[1]), 0);
    assert_eq!(valid_codes(&d.rounds[0]), "1600, 1601");
    assert_eq!(choice_line(&d.rounds[0].choices[0], 0), "  1. 巨无霸 + ¥0  [默认]");
    assert_eq!(round_header(&d.rounds[0], 1), "轮次1【主食】 (选1~1项, 当前已选1):");
    assert_eq!(round_prompt(&d.rounds[0]), "请选择 [默认1]: ");
    assert_eq!(round_prompt(&d.rounds[1]), "请选择编号（逗号分隔，默认1）: ");
    assert!(matches!(pick_round_choices(&d.rounds[0], ""), RoundAnswer::Picked(v) if v == vec![0]));
    assert!(matches!(pick_round_choices(&d.rounds[0], "2"), RoundAnswer::Picked(v) if v == vec![1]));
    assert!(matches!(pick_round_choices(&d.rounds[0], "3"), RoundAnswer::Retry(m) if m == "编号无效，请选择 1~2"));
    assert!(matches!(pick_round_choices(&d.rounds[0], "x"), RoundAnswer::Invalid));
    assert!(matches!(pick_round_choices(&d.rounds[1], "2, 1"), RoundAnswer::Picked(v) if v == vec![1, 0]));
    assert!(matches!(pick_round_choices(&d.rounds[1], "1,1"), RoundAnswer::Retry(_)));
    assert_eq!(bool_answer("", true), Some(true));
    assert_eq!(bool_answer("YES", false), Some(true));
    assert_eq!(bool_answer("否", true), Some(false));
    assert_eq!(bool_answer("maybe", true), None);
    assert_eq!(index_answer("", 3), Some(3));
    assert_eq!(index_answer("+2", 3), Some(2));
    assert_eq!(index_answer("-2", 3), None);
}

#[test]
fn modification_group_steps() {
    assert!(matches!(mod_group_start(&item(0, 1, vec![])), ModGroupStart::Empty));
    assert!(matches!(mod_group_start(&item(1, 1, vec![value("a", "A", 0, None)])), ModGroupStart::Auto(v) if v.len() == 1));
    let toggled = item(0, 1, vec![value("a", "去冰", 1, Some("a-off")), value("b", "少糖", 0, Some("b-off"))]);
    let mut marks = match mod_group_start(&toggled) {
        ModGroupStart::Toggle(m) => m,
        other => panic!("unexpected {:?}", other),
    };
    assert_eq!(marks, vec![true, false]);
    assert!(matches!(toggle_step(&toggled, &mut marks, "2"), ToggleOutcome::Toggled(None)));
    assert_eq!(marks, vec![true, true]);
    match toggle_step(&toggled, &mut marks, "") {
        ToggleOutcome::Retry(m) => assert_eq!(m, "当前已选2项，请选择0~1项后回车"),
        other => panic!("unexpected {:?}", other),
    }
    assert!(matches!(toggle_step(&toggled, &mut marks, "1,9"), ToggleOutcome::Toggled(Some(m)) if m == "编号无效，请重新输入"));
    assert_eq!(marks, vec![false, true]);
    assert!(matches!(toggle_step(&toggled, &mut marks, ""), ToggleOutcome::Done(v) if v.len() == 2));
    let single = item(1, 1, vec![value("a", "大杯", 0, None), value("b", "中杯", 1, None)]);
    let current = match mod_group_start(&single) {
        ModGroupStart::Single(c) => c,
        other => panic!("unexpected {:?}", other),
    };
    assert_eq!(current, 1);
    assert!(matches!(single_step(&single, current, ""), SingleOutcome::Done(v) if v.len() == 1));
    assert!(matches!(single_step(&single, current, "3"), SingleOutcome::Retry));
    assert!(matches!(single_step(&single, current, "x"), SingleOutcome::Invalid));
    let m = Modification { items: vec![item(1, 1, vec![value("a", "A", 0, None)]), toggled.clone(), single.clone()] };
    let (groups, auto) = build_mod_groups(&m);
    assert_eq!(auto.len(), 1);
    assert_eq!(groups.iter().map(|g| (g.index, g.multi)).collect::<Vec<_>>(), vec![(1, true), (2, false)]);
}

#[test]
fn cursor_and_combo_page() {
    assert_eq!(list_next(Some(2), 3), Some(0));
    assert_eq!(list_prev(Some(0), 3), Some(2));
    assert_eq!(list_prev(None, 0), None);
    assert_eq!(list_next(list_prev(Some(1), 4), 4), Some(1));
    assert_eq!(list_index_at(5, 7, 2, 10), Some(3));
    assert_eq!(list_index_at(5, 5, 0, 10), None);
    assert_eq!(list_index_at(5, 20, 0, 10), None);
    assert_eq!(truncate_width("abcdef", 4), "abcd…");
    assert_eq!(truncate_width("汉字汉", 4), "汉字…");
    assert_eq!(truncate_width("abc", 0), "");
    assert_eq!(truncate_width("abc", 4), "abc");
    let d = detail();
    let mut t0 = initial_round_toggles(&d.rounds[0]);
    assert_eq!(t0, vec![true, false]);
    toggle_choice(&d.rounds[0], &mut t0, 1);
    assert_eq!(t0, vec![false, true]);
    let mut t1 = initial_round_toggles(&d.rounds[1]);
    toggle_choice(&d.rounds[1], &mut t1, 1);
    assert_eq!(t1, vec![true, true]);
    assert_eq!(combo_done(&d, &vec![t0.clone(), t1.clone()]).unwrap(), vec![vec![1], vec![0, 1]]);
    let none = vec![false, false];
    assert_eq!(combo_done(&d, &vec![t0, none]).unwrap_err(), "轮次2【饮料】请选择 1~2 项");
}

fn member_of<'a>(j: &'a Json, key: &str) -> &'a Json {
    match j {
        Json::Object(es) => es.iter().find(|(n, _)| n == key).map(|(_, v)| v).unwrap(),
        _ => panic!("shape"),
    }
}

fn codes_of(v: &[Json]) -> Vec<(String, String, i64)> {
    let mut out: Vec<(String, String, i64)> = Vec::new();
    for j in v {
        let c = match member_of(j, "code") {
            Json::Str(c) => c.clone(),
            _ => panic!("shape"),
        };
        let k = match member_of(j, "key") {
            Json::Str(k) => k.clone(),
            _ => panic!("shape"),
        };
        let q = match member_of(j, "quantity") {
            Json::Int(q) => *q,
            _ => panic!("shape"),
        };
        out.push((c, k, q));
    }
    out
}

#[test]
fn mods_page_steps() {
    let g = item(1, 1, vec![value("a", "少冰", 1, Some("a-off")), value("b", "去冰", 0, Some("b-off"))]);
    let mut marks = vec![true, false];
    mods_page_toggle(&g, &mut marks, 1);
    assert_eq!(marks, vec![true, false]);
    mods_page_toggle(&g, &mut marks, 0);
    assert_eq!(marks, vec![false, false]);
    match mods_page_confirm(&g, true, &marks, 0) {
        PageConfirm::Retry(m) => assert_eq!(m, "请选择 1~1 项"),
        other => panic!("{:?}", other),
    }
    mods_page_toggle(&g, &mut marks, 1);
    assert_eq!(marks, vec![false, true]);
    match mods_page_confirm(&g, true, &marks, 0) {
        PageConfirm::Done(v) => assert_eq!(
            codes_of(&v),
            vec![("a".to_string(), "a-off".to_string(), 0), ("b".to_string(), "b-on".to_string(), 1)]
        ),
        other => panic!("{:?}", other),
    }
    match mods_page_confirm(&g, false, &marks, 1) {
        PageConfirm::Done(v) => assert_eq!(codes_of(&v), vec![("b".to_string(), "b-on".to_string(), 1)]),
        other => panic!("{:?}", other),
    }
}

#[test]
fn split_on_pattern() {
    assert_eq!(split_text("a + b + c", " + "), vec!["a", "b", "c"]);
    assert_eq!(split_text("a", " + "), vec!["a"]);
    assert_eq!(split_text("", " + "), vec![""]);
    assert_eq!(split_text(" + x + ", " + "), vec!["", "x", ""]);
}
