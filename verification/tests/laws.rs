use mcd_cli::json::Json;
use mcd_cli::meal::{build_item_value, Choice, MealDetail, ModSelection, Round};
use mcd_cli::nav::{initial_round_toggles, toggle_choice};
use mcd_cli::pick::parse_pick_spec;
use mcd_cli::rpc::RequestIds;
use mcd_cli::session::parse_i64;
use mcd_cli::screens::{add_to_basket, product_item, remove_selected, BasketItem};

fn c(code: &str) -> Choice {
    Choice {
        code: code.to_string(),
        name: format!("n{}", code),
        quantity: 0,
        max_quantity: 1,
        is_default: 0,
        diff_price: None,
        support_modify: false,
        modification: None,
    }
}

fn combo() -> MealDetail {
    MealDetail {
        code: "9900013304".to_string(),
        name: "人气经典随心配".to_string(),
        image: None,
        support_modify: false,
        modification: None,
        rounds: vec![
            Round { id: 1, name: "蓝区".to_string(), quantity: 0, max_quantity: 1, min_quantity: 1, choices: vec![c("1600"), c("1450")] },
            Round { id: 2, name: "粉区".to_string(), quantity: 0, max_quantity: 2, min_quantity: 1, choices: vec![c("3050"), c("3051"), c("3052")] },
        ],
    }
}

fn codes_by_round(item: &Json) -> Vec<(String, Vec<String>)> {
    let Json::Object(es) = item else { panic!("item is not an object") };
    let list = es.iter().find(|(k, _)| k == "roundList").map(|(_, v)| v).expect("roundList");
    let Json::Array(rounds) = list else { panic!("roundList is not an array") };
    rounds
        .iter()
        .map(|r| {
            let Json::Object(re) = r else { panic!("round entry") };
            let id = match &re[0] {
                (k, Json::Str(s)) if k == "round" => s.clone(),
                _ => panic!("round id"),
            };
            let combos = match &re[1] {
                (k, Json::Array(a)) if k == "comboItemList" => a
                    .iter()
                    .map(|e| match e {
                        Json::Object(ce) => match &ce[0] {
                            (k, Json::Str(s)) if k == "code" => s.clone(),
                            _ => panic!("combo code"),
                        },
                        _ => panic!("combo entry"),
                    })
                    .collect(),
                _ => panic!("combo list"),
            };
            (id, combos)
        })
        .collect()
}

#[test]
fn accepted_pick_lists_every_round() {
    let d = combo();
    let picks = parse_pick_spec(&d, "2=3052,3050, 1=1450").unwrap();
    let mods: Vec<Vec<Option<ModSelection>>> = Vec::new();
    let item = build_item_value(&d, 1, &picks, &mods, None);
    assert_eq!(
        codes_by_round(&item),
        vec![("1".to_string(), vec!["1450".to_string()]), ("2".to_string(), vec!["3052".to_string(), "3050".to_string()])]
    );
}

#[test]
fn toggling_keeps_round_bound() {
    let d = combo();
    let multi = &d.rounds[1];
    let mut t = initial_round_toggles(multi);
    assert_eq!(t, vec![false, false, false]);
    for ci in [0, 1, 2, 2, 0, 1, 2] {
        toggle_choice(multi, &mut t, ci);
        assert!(t.iter().filter(|b| **b).count() as i64 <= multi.max_quantity);
    }
    let single = &d.rounds[0];
    let mut s = initial_round_toggles(single);
    for ci in [1, 0, 0] {
        toggle_choice(single, &mut s, ci);
        assert_eq!(s.iter().filter(|b| **b).count(), 1);
    }
}

#[test]
fn basket_total_and_cursor() {
    let mut basket: Vec<BasketItem> = Vec::new();
    let adds = [("可乐", 2u32), ("薯条", 1), ("可乐", 3), ("汉堡", 4)];
    let mut expected = 0u32;
    for (label, qty) in adds {
        add_to_basket(&mut basket, label.to_string(), qty, product_item("X"), String::new());
        expected += qty;
        assert_eq!(basket.iter().map(|b| b.qty).sum::<u32>(), expected);
    }
    let mut labels: Vec<&str> = basket.iter().map(|b| b.label.as_str()).collect();
    labels.sort();
    labels.dedup();
    assert_eq!(labels.len(), basket.len());
    let mut sel = Some(basket.len() - 1);
    while !basket.is_empty() {
        sel = remove_selected(&mut basket, sel);
        match sel {
            Some(j) => assert!(j < basket.len()),
            None => assert!(basket.is_empty()),
        }
    }
}

#[test]
fn written_integers_read_back() {
    for v in [0i64, 7, -7, 1600, -42, i64::MAX, i64::MIN, 1234567890123] {
        assert_eq!(parse_i64(&v.to_string()), Some(v));
    }
    assert_eq!(parse_i64("+15"), Some(15));
    assert_eq!(parse_i64("9223372036854775808"), None);
    assert_eq!(parse_i64("-"), None);
    assert_eq!(parse_i64("1a"), None);
}

#[test]
fn request_ids_do_not_repeat() {
    let mut ids = RequestIds { next: u64::MAX - 500 };
    let mut seen: Vec<u64> = Vec::new();
    for _ in 0..1000 {
        let id = ids.next_id();
        assert!(!seen.contains(&id));
        seen.push(id);
    }
}

#[test]
fn pick_groups_in_any_order() {
    let d = combo();
    let a = parse_pick_spec(&d, "1=1600,2=3050|3051").unwrap();
    let b = parse_pick_spec(&d, "  2 = 3050 | 3051 ,1= 1600 ").unwrap();
    assert_eq!(a, b);
    assert!(parse_pick_spec(&d, "1=9999,2=3050").is_err());
    assert!(parse_pick_spec(&d, "2=3050, 1 = 9999").is_err());
}

#[test]
fn pick_groups_with_continuation_codes_in_any_order() {
    let d = combo();
    let a = parse_pick_spec(&d, "1=1600,2=3050,3051").unwrap();
    let b = parse_pick_spec(&d, " 2 = 3050 , 3051 , 1=1600").unwrap();
    assert_eq!(a, b);
    assert_eq!(a, vec![vec![0], vec![0, 1]]);
}

#[test]
fn basket_stays_consistent() {
    let mut basket: Vec<BasketItem> = Vec::new();
    add_to_basket(&mut basket, "可乐".to_string(), 1, product_item("C1"), String::new());
    add_to_basket(&mut basket, "薯条".to_string(), 2, quantity_item("F1", 2), String::new());
    add_to_basket(&mut basket, "可乐".to_string(), 3, product_item("C1"), String::new());
    assert_eq!(basket.len(), 2);
    for b in &basket {
        assert_eq!(item_quantity(&b.item), Some(b.qty as i64));
    }
    assert_eq!(basket[0].qty, 4);
}

fn quantity_item(code: &str, qty: u64) -> Json {
    Json::Object(vec![("productCode".to_string(), Json::Str(code.to_string())), ("quantity".to_string(), Json::UInt(qty))])
}

fn item_quantity(j: &Json) -> Option<i64> {
    match j {
        Json::Object(es) => es.iter().find(|(k, _)| k == "quantity").and_then(|(_, v)| match v {
            Json::Int(n) => Some(*n),
            Json::UInt(n) => Some(*n as i64),
            _ => None,
        }),
        _ => None,
    }
}
