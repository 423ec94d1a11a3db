//! Decisions of the full-screen ordering interface: which screen `back`
//! leads to, how focus moves on the menu page, which menu entries are
//! visible, where the combo cursor lands, and the store, menu and price
//! lists that the pages show.
use vstd::prelude::*;
use crate::json::{Json, JVal, jvs, entries_view, lemma_obj_view, entry};
use crate::show::{
    text_or, int_or, flag, list_or_empty, text_at, int_at, flag_at, list_at, money_cents_text, money_cents,
};
use crate::show_tables::{data_list, one_line, one_line_text, with_order};
use crate::text::{
    int_text, i64_text, chars_of, find_spec, find_seq, str_eq, views, trim, trimmed, nat_text, usize_text, split_str,
    split_text,
};
use crate::args::{opt_entry, opt_view, nearby_args, order_create_args, order_entries, OrderOptions};

verus! {

// ---- screens and keys ----

/// The pages of the interface.
#[derive(PartialEq, Eq, Structural, Clone, Copy, Debug)]
pub enum Screen {
    StoreSearch,
    StoreList,
    Menu,
    Combo,
    Mods,
    Price,
    OrderResult,
}

/// The page that `back` leads to, and whether a single product's
/// modifications are still being chosen.
pub open spec fn back_spec(screen: Screen, product_mods: bool) -> (Screen, bool) {
    match screen {
        Screen::StoreList => (Screen::StoreSearch, product_mods),
        Screen::Menu => (Screen::StoreList, product_mods),
        Screen::Combo => (Screen::Menu, product_mods),
        Screen::Mods => if product_mods { (Screen::Menu, false) } else { (Screen::Combo, false) },
        Screen::Price => (Screen::Menu, product_mods),
        Screen::OrderResult => (Screen::Menu, product_mods),
        Screen::StoreSearch => (Screen::StoreSearch, product_mods),
    }
}

/// The status message after going back.
pub open spec fn back_status() -> Seq<char> {
    "已返回"@
}

/// Goes back one page (see [`back_spec`]), with the status message to show.
pub fn go_back(screen: Screen, product_mods: bool) -> (r: (Screen, bool, String))
    ensures
        (r.0, r.1) == back_spec(screen, product_mods),
        r.2@ == back_status(),
{
    let (s, p) = match screen {
        Screen::StoreList => (Screen::StoreSearch, product_mods),
        Screen::Menu => (Screen::StoreList, product_mods),
        Screen::Combo => (Screen::Menu, product_mods),
        Screen::Mods => if product_mods {
            (Screen::Menu, false)
        } else {
            (Screen::Combo, false)
        },
        Screen::Price => (Screen::Menu, product_mods),
        Screen::OrderResult => (Screen::Menu, product_mods),
        Screen::StoreSearch => (Screen::StoreSearch, product_mods),
    };
    (s, p, "已返回".to_owned())
}

/// The parts of the menu page that can hold the focus.
#[derive(PartialEq, Eq, Structural, Clone, Copy, Debug)]
pub enum MenuFocus {
    Search,
    Category,
    Items,
    Basket,
}

/// The keys that move the focus on the menu page.
#[derive(PartialEq, Eq, Structural, Clone, Copy, Debug)]
pub enum FocusKey {
    Slash,
    Tab,
    Right,
    Left,
}

/// The focus after a key, or `None` where the key does not move it: `/`
/// opens the search from elsewhere; Tab cycles search, categories, items and
/// basket; Right and Left cycle categories, items and basket outside the
/// search.
pub open spec fn focus_after_spec(focus: MenuFocus, key: FocusKey) -> Option<MenuFocus> {
    match key {
        FocusKey::Slash => if focus != MenuFocus::Search { Some(MenuFocus::Search) } else { None },
        FocusKey::Tab => Some(
            match focus {
                MenuFocus::Search => MenuFocus::Category,
                MenuFocus::Category => MenuFocus::Items,
                MenuFocus::Items => MenuFocus::Basket,
                MenuFocus::Basket => MenuFocus::Search,
            },
        ),
        FocusKey::Right => match focus {
            MenuFocus::Category => Some(MenuFocus::Items),
            MenuFocus::Items => Some(MenuFocus::Basket),
            MenuFocus::Basket => Some(MenuFocus::Category),
            MenuFocus::Search => None,
        },
        FocusKey::Left => match focus {
            MenuFocus::Category => Some(MenuFocus::Basket),
            MenuFocus::Items => Some(MenuFocus::Category),
            MenuFocus::Basket => Some(MenuFocus::Items),
            MenuFocus::Search => None,
        },
    }
}

/// The focus after a key (see [`focus_after_spec`]).
pub fn focus_after(focus: MenuFocus, key: FocusKey) -> (r: Option<MenuFocus>)
    ensures
        r == focus_after_spec(focus, key),
{
    match key {
        FocusKey::Slash => if focus != MenuFocus::Search {
            Some(MenuFocus::Search)
        } else {
            None
        },
        FocusKey::Tab => Some(
            match focus {
                MenuFocus::Search => MenuFocus::Category,
                MenuFocus::Category => MenuFocus::Items,
                MenuFocus::Items => MenuFocus::Basket,
                MenuFocus::Basket => MenuFocus::Search,
            },
        ),
        FocusKey::Right => match focus {
            MenuFocus::Category => Some(MenuFocus::Items),
            MenuFocus::Items => Some(MenuFocus::Basket),
            MenuFocus::Basket => Some(MenuFocus::Category),
            MenuFocus::Search => None,
        },
        FocusKey::Left => match focus {
            MenuFocus::Category => Some(MenuFocus::Basket),
            MenuFocus::Items => Some(MenuFocus::Category),
            MenuFocus::Basket => Some(MenuFocus::Items),
            MenuFocus::Search => None,
        },
    }
}

/// Law: Right then Left, and Left then Right, give the focus back outside
/// the search; four Tabs go round.
pub proof fn lemma_focus_round_trip(f: MenuFocus)
    ensures
        f != MenuFocus::Search ==> match focus_after_spec(f, FocusKey::Right) {
            Some(g) => focus_after_spec(g, FocusKey::Left) == Some(f),
            None => false,
        },
        f != MenuFocus::Search ==> match focus_after_spec(f, FocusKey::Left) {
            Some(g) => focus_after_spec(g, FocusKey::Right) == Some(f),
            None => false,
        },
        ({
            let t1 = focus_after_spec(f, FocusKey::Tab)->0;
            let t2 = focus_after_spec(t1, FocusKey::Tab)->0;
            let t3 = focus_after_spec(t2, FocusKey::Tab)->0;
            focus_after_spec(t3, FocusKey::Tab) == Some(f)
        }),
{
}

/// What a key does before the page handles it.
#[derive(PartialEq, Eq, Structural, Clone, Copy, Debug)]
pub enum KeyEffect {
    Back,
    Exit,
    Page,
}

/// The keys that every page reacts to.
#[derive(PartialEq, Eq, Structural, Clone, Copy, Debug)]
pub enum GlobalKey {
    Quit,
    Escape,
    Other,
}

/// `q` goes back, but leaves the interface on the store search; Esc goes back
/// except on the store search and while typing a menu search; other keys go
/// to the page.
pub open spec fn key_effect_spec(screen: Screen, focus: MenuFocus, key: GlobalKey) -> KeyEffect {
    match key {
        GlobalKey::Quit => if screen != Screen::StoreSearch { KeyEffect::Back } else { KeyEffect::Exit },
        GlobalKey::Escape => if screen != Screen::StoreSearch && !(screen == Screen::Menu && focus
            == MenuFocus::Search) {
            KeyEffect::Back
        } else {
            KeyEffect::Page
        },
        GlobalKey::Other => KeyEffect::Page,
    }
}

/// What a key does before the page handles it (see [`key_effect_spec`]).
pub fn key_effect(screen: Screen, focus: MenuFocus, key: GlobalKey) -> (r: KeyEffect)
    ensures
        r == key_effect_spec(screen, focus, key),
{
    match key {
        GlobalKey::Quit => if screen != Screen::StoreSearch {
            KeyEffect::Back
        } else {
            KeyEffect::Exit
        },
        GlobalKey::Escape => if screen != Screen::StoreSearch && !(screen == Screen::Menu && focus
            == MenuFocus::Search) {
            KeyEffect::Back
        } else {
            KeyEffect::Page
        },
        GlobalKey::Other => KeyEffect::Page,
    }
}

// ---- stores and menu entries ----

/// A store of the store list.
#[derive(Debug, Clone)]
pub struct StoreItem {
    pub code: String,
    pub name: String,
    pub distance: String,
    pub address: String,
}

/// The store list of a nearby-store search: code, name, distance in metres
/// (empty where unknown) and address of each store.
pub open spec fn store_item_spec(s: JVal) -> (Seq<char>, Seq<char>, Seq<char>, Seq<char>) {
    (
        text_or(s, "storeCode"@, "-"@),
        text_or(s, "storeName"@, "-"@),
        match s.i64_at("distance"@) {
            Some(d) => int_text(d) + "m"@,
            None => Seq::empty(),
        },
        text_or(s, "address"@, "-"@),
    )
}

pub open spec fn store_views(v: Seq<StoreItem>) -> Seq<(Seq<char>, Seq<char>, Seq<char>, Seq<char>)> {
    Seq::new(v.len(), |i: int| (v[i].code@, v[i].name@, v[i].distance@, v[i].address@))
}

/// The stores in the `data` list of `data` (see [`store_item_spec`]).
pub fn store_items(data: &Json) -> (r: Vec<StoreItem>)
    ensures
        store_views(r@) == Seq::new(
            match data@.as_arr() { Some(a) => a.len(), None => 0 },
            |i: int| store_item_spec(data@.as_arr()->0[i]),
        ),
{
    let empty: Vec<Json> = Vec::new();
    let list: &Vec<Json> = match data.as_array() {
        Some(a) => a,
        None => &empty,
    };
    let mut out: Vec<StoreItem> = Vec::new();
    let mut i: usize = 0;
    while i < list.len()
        invariant
            i <= list@.len(),
            data@.as_arr() is Some ==> data@.as_arr()->0 == jvs(list@),
            data@.as_arr() is None ==> list@.len() == 0,
            store_views(out@) == Seq::new(i as nat, |k: int| store_item_spec(list@[k]@)),
        decreases list@.len() - i,
    {
        let s = &list[i];
        let distance = match s.get_i64("distance") {
            Some(d) => {
                let mut t = i64_text(d);
                t.append("m");
                t
            },
            None => String::new(),
        };
        let item = StoreItem {
            code: text_at(s, "storeCode", "-"),
            name: text_at(s, "storeName", "-"),
            distance,
            address: text_at(s, "address", "-"),
        };
        let ghost before = out@;
        out.push(item);
        assert(store_views(out@) =~= store_views(before).push(
            (item.code@, item.name@, item.distance@, item.address@),
        ));
        assert(store_views(out@) =~= Seq::new((i + 1) as nat, |k: int| store_item_spec(list@[k]@)));
        i += 1;
    }
    assert(store_views(out@) =~= Seq::new(
        match data@.as_arr() { Some(a) => a.len(), None => 0 },
        |i: int| store_item_spec(data@.as_arr()->0[i]),
    ));
    out
}

/// An entry of the menu page.
#[derive(Debug, Clone)]
pub struct MenuItem {
    pub code: String,
    pub name: String,
    pub price: String,
    pub category: String,
    pub with_order: bool,
}

/// The menu entry of a meal of a category: code, name and price from the
/// `meals` object (`-` where unknown), the category, and whether it can only
/// be bought with an order.
pub open spec fn menu_item_spec(cat: Seq<char>, meal: JVal, meals: JVal) -> (Seq<char>, Seq<char>, Seq<char>, Seq<char>, bool) {
    let code = text_or(meal, "code"@, "-"@);
    let info = meals.field(code);
    (code, text_or(info, "name"@, "-"@), text_or(info, "currentPrice"@, "-"@), cat, with_order(info))
}

/// The menu entries of the categories, in order, each meal under its category.
pub open spec fn menu_items_spec(cats: Seq<JVal>, meals: JVal) -> Seq<(Seq<char>, Seq<char>, Seq<char>, Seq<char>, bool)>
    decreases cats.len(),
{
    if cats.len() == 0 {
        Seq::empty()
    } else {
        let cat = cats.last();
        let name = one_line(text_or(cat, "name"@, "未分类"@));
        let ms = list_or_empty(cat, "meals"@);
        menu_items_spec(cats.drop_last(), meals) + Seq::new(ms.len(), |j: int| menu_item_spec(name, ms[j], meals))
    }
}

pub open spec fn menu_views(v: Seq<MenuItem>) -> Seq<(Seq<char>, Seq<char>, Seq<char>, Seq<char>, bool)> {
    Seq::new(v.len(), |i: int| (v[i].code@, v[i].name@, v[i].price@, v[i].category@, v[i].with_order))
}

fn menu_entry(cat: &String, meal: &Json, meals: &Json) -> (r: MenuItem)
    ensures
        (r.code@, r.name@, r.price@, r.category@, r.with_order) == menu_item_spec(cat@, meal@, meals@),
{
    let code = text_at(meal, "code", "-");
    let null = Json::Null;
    let info: &Json = match meals.get(code.as_str()) {
        Some(i) => i,
        None => &null,
    };
    assert(info@ == meals@.field(code@));
    let marked = match info.get_str("discountType") {
        Some(t) => {
            let cs = chars_of(t.as_str());
            let pat: Vec<char> = vec!['随', '单', '购'];
            assert(pat@ =~= crate::show_tables::with_order_mark());
            find_seq(&cs, &pat).is_some()
        },
        None => false,
    };
    let with = marked || flag_at(info, "canWithOrder");
    MenuItem {
        code,
        name: text_at(info, "name", "-"),
        price: text_at(info, "currentPrice", "-"),
        category: cat.clone(),
        with_order: with,
    }
}

/// The menu entries of a menu response's `data` (see [`menu_items_spec`]).
#[verifier::rlimit(40)]
pub fn menu_items(data: &Json) -> (r: Vec<MenuItem>)
    ensures
        menu_views(r@) == menu_items_spec(list_or_empty(data@, "categories"@), data@.field("meals"@)),
{
    let null = Json::Null;
    let meals: &Json = match data.get("meals") {
        Some(m) => m,
        None => &null,
    };
    let empty: Vec<Json> = Vec::new();
    let cats = list_at(data, "categories", &empty);
    let mut out: Vec<MenuItem> = Vec::new();
    let mut i: usize = 0;
    assert(jvs(cats@).take(0) =~= Seq::<JVal>::empty());
    while i < cats.len()
        invariant
            i <= cats@.len(),
            meals@ == data@.field("meals"@),
            menu_views(out@) == menu_items_spec(jvs(cats@).take(i as int), meals@),
        decreases cats@.len() - i,
    {
        let cat = &cats[i];
        let name = one_line_text(text_at(cat, "name", "未分类").as_str());
        let empty2: Vec<Json> = Vec::new();
        let ms = list_at(cat, "meals", &empty2);
        let ghost base = menu_views(out@);
        let mut j: usize = 0;
        assert(base =~= base + Seq::new(0, |k: int| menu_item_spec(name@, ms@[k]@, meals@)));
        while j < ms.len()
            invariant
                j <= ms@.len(),
                menu_views(out@) == base + Seq::new(j as nat, |k: int| menu_item_spec(name@, ms@[k]@, meals@)),
            decreases ms@.len() - j,
        {
            let e = menu_entry(&name, &ms[j], meals);
            let ghost before = out@;
            out.push(e);
            assert(menu_views(out@) =~= menu_views(before).push((e.code@, e.name@, e.price@, e.category@, e.with_order)));
            assert(menu_views(out@) =~= base + Seq::new((j + 1) as nat, |k: int| menu_item_spec(name@, ms@[k]@, meals@)));
            j += 1;
        }
        proof {
            let t = jvs(cats@).take(i + 1);
            assert(t.drop_last() =~= jvs(cats@).take(i as int));
            assert(t.last() == cat@);
            let lm = jvs(ms@);
            assert(Seq::new(ms@.len(), |k: int| menu_item_spec(name@, ms@[k]@, meals@)) =~= Seq::new(
                lm.len(),
                |k: int| menu_item_spec(name@, lm[k], meals@),
            ));
            assert(menu_views(out@) =~= menu_items_spec(t, meals@));
        }
        i += 1;
    }
    assert(jvs(cats@).take(cats@.len() as int) =~= jvs(cats@));
    out
}

/// The categories of the menu entries, each once, in the order of first
/// appearance.
pub open spec fn categories_spec(cats: Seq<Seq<char>>) -> Seq<Seq<char>>
    decreases cats.len(),
{
    if cats.len() == 0 {
        Seq::empty()
    } else {
        let prev = categories_spec(cats.drop_last());
        if prev.contains(cats.last()) {
            prev
        } else {
            prev.push(cats.last())
        }
    }
}

pub open spec fn item_categories(items: Seq<MenuItem>) -> Seq<Seq<char>> {
    Seq::new(items.len(), |i: int| items[i].category@)
}


fn contains_string(v: &Vec<String>, s: &String) -> (r: bool)
    ensures
        r == views(v@).contains(s@),
{
    let mut i: usize = 0;
    while i < v.len()
        invariant
            i <= v@.len(),
            forall|k: int| 0 <= k < i ==> #[trigger] v@[k]@ != s@,
        decreases v@.len() - i,
    {
        if v[i] == *s {
            assert(views(v@)[i as int] == s@);
            return true;
        }
        i += 1;
    }
    proof {
        if views(v@).contains(s@) {
            let k = choose|k: int| 0 <= k < views(v@).len() && views(v@)[k] == s@;
            assert(v@[k]@ != s@);
        }
    }
    false
}

/// The categories of the menu entries (see [`categories_spec`]).
pub fn menu_categories(items: &Vec<MenuItem>) -> (r: Vec<String>)
    ensures
        views(r@) == categories_spec(item_categories(items@)),
{
    let mut cats: Vec<String> = Vec::new();
    let mut i: usize = 0;
    while i < items.len()
        invariant
            i <= items@.len(),
            views(cats@) == categories_spec(item_categories(items@).take(i as int)),
        decreases items@.len() - i,
    {
        assert(item_categories(items@).take(i + 1).drop_last() =~= item_categories(items@).take(i as int));
        assert(item_categories(items@).take(i + 1).last() == items@[i as int].category@);
        let c = &items[i].category;
        if !contains_string(&cats, c) {
            let ghost before = cats@;
            cats.push(c.clone());
            assert(views(cats@) =~= views(before).push(c@));
        }
        i += 1;
    }
    assert(item_categories(items@).take(items@.len() as int) =~= item_categories(items@));
    cats
}

/// Law: the category list holds each category once, and exactly the
/// categories of the entries.
pub proof fn lemma_categories_distinct_complete(cats: Seq<Seq<char>>)
    ensures
        categories_spec(cats).no_duplicates(),
        forall|c: Seq<char>| categories_spec(cats).contains(c) <==> cats.contains(c),
    decreases cats.len(),
{
    if cats.len() > 0 {
        let prev = cats.drop_last();
        let x = cats.last();
        let p = categories_spec(prev);
        let r = categories_spec(cats);
        lemma_categories_distinct_complete(prev);
        assert(cats =~= prev.push(x));
        assert forall|c: Seq<char>| cats.contains(c) <==> (prev.contains(c) || c == x) by {
            if cats.contains(c) {
                let k = choose|k: int| 0 <= k < cats.len() && cats[k] == c;
                if k < cats.len() - 1 {
                    assert(prev[k] == c);
                }
            }
            if prev.contains(c) {
                let k = choose|k: int| 0 <= k < prev.len() && prev[k] == c;
                assert(cats[k] == c);
            }
            if c == x {
                assert(cats[cats.len() - 1] == c);
            }
        }
        if p.contains(x) {
            assert(r == p);
        } else {
            assert(r == p.push(x));
            assert forall|c: Seq<char>| r.contains(c) <==> (p.contains(c) || c == x) by {
                if r.contains(c) {
                    let k = choose|k: int| 0 <= k < r.len() && r[k] == c;
                    if k < p.len() {
                        assert(p[k] == c);
                    }
                }
                if p.contains(c) {
                    let k = choose|k: int| 0 <= k < p.len() && p[k] == c;
                    assert(r[k] == c);
                }
                if c == x {
                    assert(r[r.len() - 1] == c);
                }
            }
            assert forall|i: int, j: int| 0 <= i < r.len() && 0 <= j < r.len() && i != j implies r[i] != r[j] by {
                if i < p.len() && j < p.len() {
                    assert(r[i] == p[i] && r[j] == p[j]);
                } else if i < p.len() {
                    assert(r[i] == p[i]);
                    assert(p.contains(r[i]));
                } else if j < p.len() {
                    assert(r[j] == p[j]);
                    assert(p.contains(r[j]));
                }
            }
        }
    }
}

/// Whether a menu entry is visible: it belongs to the chosen category, if
/// any, and its name contains the search text.
pub open spec fn entry_visible(item: MenuItem, cat: Option<Seq<char>>, search: Seq<char>) -> bool {
    (match cat {
        Some(c) => item.category@ == c,
        None => true,
    }) && (search.len() == 0 || find_spec(item.name@, search) is Some)
}

/// The indices of the visible menu entries, in order.
pub open spec fn visible_spec(items: Seq<MenuItem>, cat: Option<Seq<char>>, search: Seq<char>) -> Seq<usize>
    decreases items.len(),
{
    if items.len() == 0 {
        Seq::empty()
    } else {
        let prev = visible_spec(items.drop_last(), cat, search);
        if entry_visible(items.last(), cat, search) {
            prev.push((items.len() - 1) as usize)
        } else {
            prev
        }
    }
}

/// The category chosen in the category list: none for its first row (all
/// categories), else the category of that row.
pub open spec fn chosen_category(selected: Option<usize>, cats: Seq<String>) -> Option<Seq<char>> {
    match selected {
        Some(i) => if i == 0 || i - 1 >= cats.len() { None } else { Some(cats[i - 1]@) },
        None => None,
    }
}

/// The indices of the visible menu entries (see [`visible_spec`]).
pub fn visible_menu(items: &Vec<MenuItem>, cats: &Vec<String>, selected: Option<usize>, search: &str) -> (r: Vec<usize>)
    ensures
        r@ == visible_spec(items@, chosen_category(selected, cats@), search@),
{
    let cat: Option<&String> = match selected {
        Some(i) => if i == 0 || i - 1 >= cats.len() {
            None
        } else {
            Some(&cats[i - 1])
        },
        None => None,
    };
    let ghost cv = chosen_category(selected, cats@);
    assert(match cat { Some(c) => cv == Some(c@), None => cv is None });
    let pat = chars_of(search);
    let mut out: Vec<usize> = Vec::new();
    let mut i: usize = 0;
    while i < items.len()
        invariant
            i <= items@.len(),
            pat@ == search@,
            match cat { Some(c) => cv == Some(c@), None => cv is None },
            out@ == visible_spec(items@.take(i as int), cv, search@),
        decreases items@.len() - i,
    {
        assert(items@.take(i + 1).drop_last() =~= items@.take(i as int));
        assert(items@.take(i + 1).last() == items@[i as int]);
        let item = &items[i];
        let ok_cat = match cat {
            Some(c) => item.category == *c,
            None => true,
        };
        let ok_search = if pat.len() == 0 {
            true
        } else {
            let name = chars_of(item.name.as_str());
            find_seq(&name, &pat).is_some()
        };
        if ok_cat && ok_search {
            out.push(i);
        }
        i += 1;
    }
    assert(items@.take(items@.len() as int) =~= items@);
    out
}

// ---- the combo page cursor ----

/// The rows of the combo page: a heading row for each round, followed by a
/// row for each of its choices.
pub open spec fn combo_rows(counts: Seq<nat>) -> Seq<(usize, Option<usize>)>
    decreases counts.len(),
{
    if counts.len() == 0 {
        Seq::empty()
    } else {
        let ri = (counts.len() - 1) as usize;
        combo_rows(counts.drop_last()) + seq![(ri, None::<usize>)] + Seq::new(
            counts.last(),
            |ci: int| (ri, Some(ci as usize)),
        )
    }
}

/// The number of choices of each round.
pub open spec fn choice_counts(rounds: Seq<crate::meal::Round>) -> Seq<nat> {
    Seq::new(rounds.len(), |i: int| rounds[i].choices@.len())
}

/// The rows of the combo page of a meal (see [`combo_rows`]).
pub fn combo_flat(rounds: &Vec<crate::meal::Round>) -> (r: Vec<(usize, Option<usize>)>)
    ensures
        r@ == combo_rows(choice_counts(rounds@)),
{
    let mut flat: Vec<(usize, Option<usize>)> = Vec::new();
    let mut ri: usize = 0;
    assert(choice_counts(rounds@).take(0) =~= Seq::<nat>::empty());
    while ri < rounds.len()
        invariant
            ri <= rounds@.len(),
            flat@ == combo_rows(choice_counts(rounds@).take(ri as int)),
        decreases rounds@.len() - ri,
    {
        let ghost base = flat@;
        flat.push((ri, None));
        let n = rounds[ri].choices.len();
        let mut ci: usize = 0;
        assert(flat@ =~= base + seq![(ri, None::<usize>)] + Seq::new(0, |c: int| (ri, Some(c as usize))));
        while ci < n
            invariant
                ci <= n,
                flat@ == base + seq![(ri, None::<usize>)] + Seq::new(ci as nat, |c: int| (ri, Some(c as usize))),
            decreases n - ci,
        {
            flat.push((ri, Some(ci)));
            assert(flat@ =~= base + seq![(ri, None::<usize>)] + Seq::new((ci + 1) as nat, |c: int| (ri, Some(c as usize))));
            ci += 1;
        }
        proof {
            let t = choice_counts(rounds@).take(ri + 1);
            assert(t.drop_last() =~= choice_counts(rounds@).take(ri as int));
            assert(t.last() == n);
        }
        ri += 1;
    }
    assert(choice_counts(rounds@).take(rounds@.len() as int) =~= choice_counts(rounds@));
    flat
}

/// One step of the cursor in a list of `len` rows, wrapping round.
pub open spec fn step(i: int, len: int, up: bool) -> int {
    if up {
        if i == 0 { len - 1 } else { i - 1 }
    } else {
        (i + 1) % len
    }
}

/// The cursor after at most `fuel` steps, stopping on the first choice row.
pub open spec fn seek(choice: Seq<bool>, i: int, up: bool, fuel: nat) -> int
    decreases fuel,
{
    if fuel == 0 {
        i
    } else {
        let j = step(i, choice.len() as int, up);
        if choice[j] {
            j
        } else {
            seek(choice, j, up, (fuel - 1) as nat)
        }
    }
}

/// Which combo rows are choice rows.
pub open spec fn choice_rows(flat: Seq<(usize, Option<usize>)>) -> Seq<bool> {
    Seq::new(flat.len(), |i: int| flat[i].1 is Some)
}

/// The cursor after moving up or down on the combo page: the next choice row
/// in that direction, going round at most once; unchanged on an empty page.
pub open spec fn combo_move_spec(flat: Seq<(usize, Option<usize>)>, selected: Option<usize>, up: bool) -> Option<usize> {
    if flat.len() == 0 {
        selected
    } else {
        let i = match selected { Some(i) => i as int, None => 0 };
        Some(seek(choice_rows(flat), i, up, flat.len()) as usize)
    }
}

/// Moves the combo cursor (see [`combo_move_spec`]).
pub fn combo_move(flat: &Vec<(usize, Option<usize>)>, selected: Option<usize>, up: bool) -> (r: Option<usize>)
    requires
        flat@.len() > 0 ==> match selected {
            Some(i) => if up { i <= flat@.len() } else { i < usize::MAX },
            None => true,
        },
    ensures
        r == combo_move_spec(flat@, selected, up),
{
    let len = flat.len();
    if len == 0 {
        return selected;
    }
    let ghost marks = choice_rows(flat@);
    let start = match selected {
        Some(i) => i,
        None => 0,
    };
    let mut i = start;
    let mut k: usize = 0;
    while k < len
        invariant
            len == flat@.len() == marks.len(),
            marks == choice_rows(flat@),
            start as int == match selected { Some(x) => x as int, None => 0 },
            k == 0 ==> i == start,
            k > 0 ==> i < len,
            up ==> start <= len,
            !up ==> start < usize::MAX,
            k <= len,
            seek(marks, start as int, up, len as nat) == seek(marks, i as int, up, (len - k) as nat),
        decreases len - k,
    {
        let ghost prev_i = i;
        i = if up {
            if i == 0 {
                len - 1
            } else {
                i - 1
            }
        } else {
            (i + 1) % len
        };
        assert(i == step(prev_i as int, len as int, up));
        assert(seek(marks, prev_i as int, up, (len - k) as nat) == if marks[i as int] {
            i as int
        } else {
            seek(marks, i as int, up, (len - k - 1) as nat)
        });
        if flat[i].1.is_some() {
            assert(marks[i as int]);
            assert(seek(marks, start as int, up, len as nat) == i as int);
            assert(combo_move_spec(flat@, selected, up) == Some(seek(marks, start as int, up, len as nat) as usize));
            return Some(i);
        }
        k += 1;
    }
    Some(i)
}

/// Law: where the page has a choice row, moving the cursor from a row of the
/// page lands on a choice row.
pub proof fn lemma_combo_move_lands_on_choice(flat: Seq<(usize, Option<usize>)>, i: usize, up: bool)
    requires
        i < flat.len() <= usize::MAX,
        exists|j: int| 0 <= j < flat.len() && (#[trigger] flat[j]).1 is Some,
    ensures
        combo_move_spec(flat, Some(i), up) matches Some(r) && r < flat.len() && flat[r as int].1 is Some,
{
    let marks = choice_rows(flat);
    let n = flat.len() as int;
    let j = choose|j: int| 0 <= j < flat.len() && (#[trigger] flat[j]).1 is Some;
    assert(marks[j]);
    let ii = i as int;
    let d: int = if up {
        if ii > j { ii - j } else { n + ii - j }
    } else {
        if j > ii { j - ii } else { n + j - ii }
    };
    if up {
        if ii > j {
            vstd::arithmetic::div_mod::lemma_small_mod(j as nat, n as nat);
        } else {
            vstd::arithmetic::div_mod::lemma_mod_sub_multiples_vanish(j, n);
            vstd::arithmetic::div_mod::lemma_small_mod(j as nat, n as nat);
            assert(ii - d == -n + j);
        }
    } else {
        if j > ii {
            vstd::arithmetic::div_mod::lemma_small_mod(j as nat, n as nat);
        } else {
            vstd::arithmetic::div_mod::lemma_mod_add_multiples_vanish(j, n);
            vstd::arithmetic::div_mod::lemma_small_mod(j as nat, n as nat);
            assert(ii + d == n + j);
        }
    }
    lemma_seek_reaches(marks, ii, up, n as nat, j, d);
    let r = seek(marks, ii, up, n as nat);
    assert(marks[r]);
    assert(flat[r].1 is Some);
}

/// Seeking from `i` finds a choice row, where the row `d` steps away is one
/// and the fuel reaches it, and stays inside the list.
proof fn lemma_seek_reaches(marks: Seq<bool>, i: int, up: bool, fuel: nat, j: int, d: int)
    requires
        0 <= i < marks.len(),
        0 <= j < marks.len(),
        marks[j],
        1 <= d <= fuel,
        d <= marks.len(),
        j == if up { (i - d) % (marks.len() as int) } else { (i + d) % (marks.len() as int) },
    ensures
        0 <= seek(marks, i, up, fuel) < marks.len(),
        marks[seek(marks, i, up, fuel)],
    decreases fuel,
{
    let n = marks.len() as int;
    let s = step(i, n, up);
    assert(0 <= s < n);
    if !marks[s] {
        if up {
            if i == 0 {
                vstd::arithmetic::div_mod::lemma_mod_add_multiples_vanish(-d, n);
                assert(s - (d - 1) == n + (-d));
            }
            if d == 1 {
                if i == 0 {
                    vstd::arithmetic::div_mod::lemma_mod_add_multiples_vanish(-1, n);
                    vstd::arithmetic::div_mod::lemma_small_mod((n - 1) as nat, n as nat);
                } else {
                    vstd::arithmetic::div_mod::lemma_small_mod((i - 1) as nat, n as nat);
                }
            }
            assert(j == (s - (d - 1)) % n);
        } else {
            vstd::arithmetic::div_mod::lemma_add_mod_noop(i + 1, d - 1, n);
            vstd::arithmetic::div_mod::lemma_small_mod((d - 1) as nat, n as nat);
            assert(j == (s + (d - 1)) % n);
        }
        assert(d > 1);
        lemma_seek_reaches(marks, s, up, (fuel - 1) as nat, j, d - 1);
    }
}

// ---- basket ----

/// The basket cursor after removing the selected entry of a basket of `len`
/// entries: unchanged while it still points into the basket, else the last
/// entry, or none in an empty basket.
pub open spec fn after_remove_spec(selected: usize, len: nat) -> Option<usize> {
    if selected < len - 1 {
        Some(selected)
    } else if len >= 2 {
        Some((len - 2) as usize)
    } else {
        None
    }
}

/// Removes the selected entry of a basket; returns the new cursor (see
/// [`after_remove_spec`]). Nothing happens where the cursor is outside the basket.
pub fn remove_selected<T>(basket: &mut Vec<T>, selected: Option<usize>) -> (r: Option<usize>)
    ensures
        match selected {
            Some(i) => if i < old(basket)@.len() {
                final(basket)@ == old(basket)@.remove(i as int) && r == after_remove_spec(i, old(basket)@.len())
            } else {
                final(basket)@ == old(basket)@ && r == selected
            },
            None => final(basket)@ == old(basket)@ && r == selected,
        },
{
    match selected {
        Some(i) => if i < basket.len() {
            basket.remove(i);
            if i >= basket.len() {
                if basket.len() >= 1 {
                    Some(basket.len() - 1)
                } else {
                    None
                }
            } else {
                Some(i)
            }
        } else {
            selected
        },
        None => selected,
    }
}

/// An entry of the basket: its label, quantity, order item and detail line.
#[derive(Debug)]
pub struct BasketItem {
    pub label: String,
    pub qty: u32,
    pub item: Json,
    pub detail: String,
}

/// The labels of the basket entries.
pub open spec fn labels(b: Seq<BasketItem>) -> Seq<Seq<char>> {
    Seq::new(b.len(), |i: int| b[i].label@)
}

/// The first basket entry with the given label.
pub open spec fn label_index(b: Seq<BasketItem>, label: Seq<char>) -> Option<int>
    decreases b.len(),
{
    if b.len() == 0 {
        None
    } else if b[0].label@ == label {
        Some(0)
    } else {
        match label_index(b.drop_first(), label) {
            Some(k) => Some(k + 1),
            None => None,
        }
    }
}

proof fn lemma_label_index(b: Seq<BasketItem>, label: Seq<char>)
    ensures
        match label_index(b, label) {
            Some(k) => 0 <= k < b.len() && b[k].label@ == label && forall|j: int| 0 <= j < k ==> #[trigger] b[j].label@ != label,
            None => forall|j: int| 0 <= j < b.len() ==> #[trigger] b[j].label@ != label,
        },
    decreases b.len(),
{
    if b.len() > 0 {
        lemma_label_index(b.drop_first(), label);
        assert forall|j: int| 1 <= j < b.len() implies #[trigger] b[j].label@ == b.drop_first()[j - 1].label@ by {}
    }
}

/// The entries of a JSON object with the value of the first entry named `key`
/// replaced by `v`.
pub open spec fn set_first(es: Seq<(Seq<char>, JVal)>, key: Seq<char>, v: JVal) -> Seq<(Seq<char>, JVal)>
    decreases es.len(),
{
    if es.len() == 0 {
        es
    } else if es[0].0 == key {
        es.update(0, (key, v))
    } else {
        seq![es[0]] + set_first(es.drop_first(), key, v)
    }
}

/// The item of a merged basket entry: its `quantity` raised by `qty` where it
/// is an unsigned integer.
pub open spec fn raised_item(item: JVal, qty: nat) -> JVal {
    match item.get("quantity"@) {
        Some(q) => match q.as_u64() {
            Some(n) => match item {
                JVal::Obj(es) => JVal::Obj(set_first(es, "quantity"@, JVal::Int(n + qty))),
                _ => item,
            },
            None => item,
        },
        None => item,
    }
}

/// Whether `qty` more of the entry labelled `label` still fit the counters.
pub open spec fn mergeable(b: Seq<BasketItem>, label: Seq<char>, qty: u32) -> bool {
    match label_index(b, label) {
        Some(k) => b[k].qty + qty <= u32::MAX && match b[k].item@.get("quantity"@) {
            Some(q) => match q.as_u64() {
                Some(n) => n + qty <= u64::MAX,
                None => true,
            },
            None => true,
        },
        None => true,
    }
}

fn raise_quantity(es: &mut Vec<(String, Json)>, n: u64)
    ensures
        entries_view(final(es)@) == set_first(entries_view(old(es)@), "quantity"@, JVal::Int(n as int)),
{
    let ghost all = entries_view(es@);
    let mut i: usize = 0;
    while i < es.len()
        invariant
            i <= es@.len(),
            es@ == old(es)@,
            all == entries_view(es@),
            forall|j: int| 0 <= j < i ==> #[trigger] all[j].0 != "quantity"@,
        decreases es@.len() - i,
    {
        if str_eq(es[i].0.as_str(), "quantity") {
            let key = es[i].0.clone();
            let ghost before = es@;
            es.set(i, (key, Json::UInt(n)));
            proof {
                lemma_set_first_at(all, "quantity"@, JVal::Int(n as int), i as int);
                assert(entries_view(es@) =~= all.update(i as int, ("quantity"@, JVal::Int(n as int))));
            }
            return;
        }
        i += 1;
    }
    proof {
        lemma_set_first_absent(all, "quantity"@, JVal::Int(n as int));
    }
}

proof fn lemma_set_first_at(es: Seq<(Seq<char>, JVal)>, key: Seq<char>, v: JVal, i: int)
    requires
        0 <= i < es.len(),
        es[i].0 == key,
        forall|j: int| 0 <= j < i ==> #[trigger] es[j].0 != key,
    ensures
        set_first(es, key, v) == es.update(i, (key, v)),
    decreases i,
{
    if i > 0 {
        let rest = es.drop_first();
        assert forall|j: int| 0 <= j < i - 1 implies #[trigger] rest[j].0 != key by {
            assert(es[j + 1].0 != key);
        }
        lemma_set_first_at(rest, key, v, i - 1);
        assert(seq![es[0]] + rest.update(i - 1, (key, v)) =~= es.update(i, (key, v)));
    }
}

proof fn lemma_set_first_absent(es: Seq<(Seq<char>, JVal)>, key: Seq<char>, v: JVal)
    requires
        forall|j: int| 0 <= j < es.len() ==> #[trigger] es[j].0 != key,
    ensures
        set_first(es, key, v) == es,
    decreases es.len(),
{
    if es.len() > 0 {
        let rest = es.drop_first();
        assert forall|j: int| 0 <= j < rest.len() implies #[trigger] rest[j].0 != key by {
            assert(es[j + 1].0 != key);
        }
        lemma_set_first_absent(rest, key, v);
        assert(seq![es[0]] + rest =~= es);
    }
}

/// Adds an entry to the basket, merging it into the first entry with the
/// same label: that entry's quantity and its item's `quantity` go up by `qty`.
#[verifier::rlimit(40)]
pub fn add_to_basket(basket: &mut Vec<BasketItem>, label: String, qty: u32, item: Json, detail: String)
    requires
        mergeable(old(basket)@, label@, qty),
    ensures
        match label_index(old(basket)@, label@) {
            Some(k) => final(basket)@.len() == old(basket)@.len() && (forall|j: int|
                0 <= j < old(basket)@.len() && j != k ==> #[trigger] final(basket)@[j] == old(basket)@[j])
                && final(basket)@[k].label == old(basket)@[k].label && final(basket)@[k].detail
                == old(basket)@[k].detail && final(basket)@[k].qty == old(basket)@[k].qty + qty
                && final(basket)@[k].item@ == raised_item(old(basket)@[k].item@, qty as nat),
            None => final(basket)@ == old(basket)@.push(BasketItem { label, qty, item, detail }),
        },
{
    proof {
        lemma_label_index(basket@, label@);
    }
    let mut k: usize = 0;
    while k < basket.len()
        invariant
            k <= basket@.len(),
            basket@ == old(basket)@,
            mergeable(old(basket)@, label@, qty),
            forall|j: int| 0 <= j < k ==> #[trigger] basket@[j].label@ != label@,
            match label_index(old(basket)@, label@) {
                Some(x) => 0 <= x < old(basket)@.len() && old(basket)@[x].label@ == label@ && forall|j: int|
                    0 <= j < x ==> #[trigger] old(basket)@[j].label@ != label@,
                None => forall|j: int| 0 <= j < old(basket)@.len() ==> #[trigger] old(basket)@[j].label@ != label@,
            },
        decreases basket@.len() - k,
    {
        if basket[k].label == label {
            proof {
                match label_index(old(basket)@, label@) {
                    Some(x) => {
                        if x < k {
                            assert(basket@[x].label@ != label@);
                        }
                        if k < x {
                            assert(old(basket)@[k as int].label@ != label@);
                        }
                    },
                    None => {
                        assert(old(basket)@[k as int].label@ != label@);
                    },
                }
            }
            let mut entry = basket.remove(k);
            let ghost old_entry = entry;
            entry.qty = entry.qty + qty;
            let raise = match entry.item.get("quantity") {
                Some(q) => q.as_u64(),
                None => None,
            };
            match raise {
                Some(n) => {
                    match &mut entry.item {
                        Json::Object(es) => {
                            proof {
                                lemma_obj_view(*es);
                            }
                            raise_quantity(es, n + qty as u64);
                            proof {
                                lemma_obj_view(*es);
                            }
                        },
                        _ => {},
                    }
                },
                None => {},
            }
            assert(entry.item@ == raised_item(old_entry.item@, qty as nat));
            basket.insert(k, entry);
            assert(basket@ =~= old(basket)@.update(k as int, entry));
            return;
        }
        k += 1;
    }
    basket.push(BasketItem { label, qty, item, detail });
}

/// Law: adding to the basket keeps its labels distinct.
pub proof fn lemma_add_keeps_labels_distinct(
    before: Seq<BasketItem>,
    after: Seq<BasketItem>,
    label: Seq<char>,
    added: BasketItem,
)
    requires
        labels(before).no_duplicates(),
        added.label@ == label,
        match label_index(before, label) {
            Some(k) => after.len() == before.len() && (forall|j: int|
                0 <= j < before.len() && j != k ==> #[trigger] after[j] == before[j]) && after[k].label
                == before[k].label,
            None => after == before.push(added),
        },
    ensures
        labels(after).no_duplicates(),
{
    lemma_label_index(before, label);
    match label_index(before, label) {
        Some(k) => {
            assert(labels(after) =~= labels(before));
        },
        None => {
            assert forall|i: int, j: int| 0 <= i < after.len() && 0 <= j < after.len() && i != j implies labels(after)[i]
                != labels(after)[j] by {
                if i < before.len() && j < before.len() {
                    assert(labels(before)[i] != labels(before)[j]);
                } else if i < before.len() {
                    assert(before[i].label@ != label);
                } else {
                    assert(before[j].label@ != label);
                }
            }
        },
    }
}

/// Whether an entry's item holds its quantity: the item's `quantity` is the
/// entry's count.
pub open spec fn quantity_matches(b: BasketItem) -> bool {
    b.item@.get("quantity"@) matches Some(q) && q.as_u64() == Some(b.qty as int)
}

/// A consistent basket: no label twice, and every item holding its count.
pub open spec fn basket_consistent(b: Seq<BasketItem>) -> bool {
    &&& labels(b).no_duplicates()
    &&& forall|i: int| 0 <= i < b.len() ==> quantity_matches(#[trigger] b[i])
}

proof fn lemma_set_first_lookup(es: Seq<(Seq<char>, JVal)>, key: Seq<char>, v: JVal)
    requires
        crate::json::obj_lookup(es, key) is Some,
    ensures
        crate::json::obj_lookup(set_first(es, key, v), key) == Some(v),
    decreases es.len(),
{
    if es.len() > 0 && es[0].0 != key {
        lemma_set_first_lookup(es.drop_first(), key, v);
        let t = seq![es[0]] + set_first(es.drop_first(), key, v);
        assert(t.drop_first() =~= set_first(es.drop_first(), key, v));
    }
}

/// Law: adding to a consistent basket keeps it consistent: the labels stay
/// distinct and every item's `quantity` stays its entry's count, where the
/// added item holds its quantity. (The relation between `before` and `after`
/// is what [`add_to_basket`] ensures.)
pub proof fn lemma_add_keeps_basket_consistent(
    before: Seq<BasketItem>,
    after: Seq<BasketItem>,
    label: Seq<char>,
    qty: u32,
    added: BasketItem,
)
    requires
        basket_consistent(before),
        added.label@ == label,
        added.qty == qty,
        quantity_matches(added),
        mergeable(before, label, qty),
        match label_index(before, label) {
            Some(k) => after.len() == before.len() && (forall|j: int|
                0 <= j < before.len() && j != k ==> #[trigger] after[j] == before[j]) && after[k].label
                == before[k].label && after[k].qty == before[k].qty + qty
                && after[k].item@ == raised_item(before[k].item@, qty as nat),
            None => after == before.push(added),
        },
    ensures
        basket_consistent(after),
{
    lemma_add_keeps_labels_distinct(before, after, label, added);
    lemma_label_index(before, label);
    match label_index(before, label) {
        Some(k) => {
            assert(quantity_matches(before[k]));
            let it = before[k].item@;
            let n = before[k].qty as int;
            match it {
                JVal::Obj(es) => {
                    lemma_set_first_lookup(es, "quantity"@, JVal::Int(n + qty));
                    assert(after[k].item@ == JVal::Obj(set_first(es, "quantity"@, JVal::Int(n + qty))));
                    assert(quantity_matches(after[k]));
                },
                _ => {
                    assert(it.get("quantity"@) is None);
                },
            }
            assert forall|i: int| 0 <= i < after.len() implies quantity_matches(#[trigger] after[i]) by {
                if i != k {
                    assert(after[i] == before[i]);
                    assert(quantity_matches(before[i]));
                }
            }
        },
        None => {
            assert forall|i: int| 0 <= i < after.len() implies quantity_matches(#[trigger] after[i]) by {
                if i < before.len() {
                    assert(after[i] == before[i]);
                    assert(quantity_matches(before[i]));
                }
            }
        },
    }
}

/// Law: after removing the selected entry, the cursor points into the
/// basket, or is none when the basket is empty.
pub proof fn lemma_remove_cursor_in_basket(selected: usize, len: nat)
    requires
        selected < len,
    ensures
        match after_remove_spec(selected, len) {
            Some(j) => j < len - 1,
            None => len - 1 == 0,
        },
{
}

/// The total quantity of the basket entries.
pub open spec fn basket_total(b: Seq<BasketItem>) -> int
    decreases b.len(),
{
    if b.len() == 0 {
        0
    } else {
        basket_total(b.drop_last()) + b.last().qty
    }
}

proof fn lemma_total_update(b: Seq<BasketItem>, k: int, e: BasketItem)
    requires
        0 <= k < b.len(),
    ensures
        basket_total(b.update(k, e)) == basket_total(b) - b[k].qty + e.qty,
    decreases b.len(),
{
    let u = b.update(k, e);
    if k == b.len() - 1 {
        assert(u.drop_last() =~= b.drop_last());
    } else {
        lemma_total_update(b.drop_last(), k, e);
        assert(u.drop_last() =~= b.drop_last().update(k, e));
    }
}

/// Law: adding to the basket raises its total quantity by the quantity
/// added, whether the entry is merged or appended.
pub proof fn lemma_add_raises_total(
    before: Seq<BasketItem>,
    after: Seq<BasketItem>,
    label: Seq<char>,
    qty: u32,
    added: BasketItem,
)
    requires
        added.qty == qty,
        match label_index(before, label) {
            Some(k) => after.len() == before.len() && (forall|j: int|
                0 <= j < before.len() && j != k ==> #[trigger] after[j] == before[j]) && after[k].qty
                == before[k].qty + qty,
            None => after == before.push(added),
        },
    ensures
        basket_total(after) == basket_total(before) + qty,
{
    lemma_label_index(before, label);
    match label_index(before, label) {
        Some(k) => {
            assert(after =~= before.update(k, after[k]));
            lemma_total_update(before, k, after[k]);
        },
        None => {
            assert(after.drop_last() =~= before);
        },
    }
}

/// The order item of a single product without choices: its code and
/// quantity 1.
pub fn product_item(code: &str) -> (r: Json)
    ensures
        r@ == JVal::Obj(seq![("productCode"@, JVal::Str(code@)), ("quantity"@, JVal::Int(1))]),
{
    let mut es: Vec<(String, Json)> = Vec::new();
    es.push(entry("productCode", Json::string(code)));
    es.push(entry("quantity", Json::UInt(1)));
    proof {
        lemma_obj_view(es);
    }
    let r = Json::Object(es);
    assert(entries_view(es@) =~= seq![("productCode"@, JVal::Str(code@)), ("quantity"@, JVal::Int(1))]);
    r
}

// ---- requests of the pages ----

/// The order type of the pages: pick-up at the store.
pub const PAGE_ORDER_TYPE: i32 = 1;

/// The business type of the pages: pick-up at the store.
pub const PAGE_BE_TYPE: i32 = 1;

/// A typed search field: its trimmed text, where that is not empty.
pub open spec fn search_field(s: Seq<char>) -> Option<Seq<char>> {
    if trim(s).len() > 0 { Some(trim(s)) } else { None }
}

/// The arguments of the store search: the pages' business type, search by
/// location, and the trimmed city and keyword where they are not empty.
pub fn store_search_args(city: &str, keyword: &str) -> (r: Json)
    ensures
        r@ == JVal::Obj(
            seq![("beType"@, JVal::Int(PAGE_BE_TYPE as int)), ("searchType"@, JVal::Int(2))] + opt_entry(
                "city"@,
                search_field(city@),
            ) + opt_entry("keyword"@, search_field(keyword@)),
        ),
{
    let c = trimmed(city);
    let k = trimmed(keyword);
    let cv: Option<&str> = if c.as_str().is_empty() {
        None
    } else {
        Some(c.as_str())
    };
    let kv: Option<&str> = if k.as_str().is_empty() {
        None
    } else {
        Some(k.as_str())
    };
    assert(opt_view(cv) == search_field(city@));
    assert(opt_view(kv) == search_field(keyword@));
    nearby_args(PAGE_BE_TYPE, 2, cv, kv)
}

/// The arguments of the order of the basket: store, items, the pages' order
/// and business types, and the way to take the meal where one was chosen.
pub fn page_order_args(store: &str, items: Json, take_way: &str) -> (r: Json)
    ensures
        r@ == JVal::Obj(
            seq![
                ("storeCode"@, JVal::Str(store@)),
                ("items"@, items@),
                ("orderType"@, JVal::Int(PAGE_ORDER_TYPE as int)),
                ("beType"@, JVal::Int(PAGE_BE_TYPE as int)),
            ] + opt_entry("takeWayCode"@, if take_way@.len() > 0 { Some(take_way@) } else { None }),
        ),
{
    let tw: Option<&str> = if take_way.is_empty() {
        None
    } else {
        Some(take_way)
    };
    let o = OrderOptions {
        be: None,
        address: None,
        take_way: tw,
        reservation_date: None,
        coupon_id: None,
        coupon_code: None,
        gm_service_code: None,
    };
    let ghost iv = items@;
    let r = order_create_args(store, items, PAGE_ORDER_TYPE, PAGE_BE_TYPE, &o);
    assert(order_entries(store@, iv, PAGE_ORDER_TYPE as int, PAGE_BE_TYPE as int, o) =~= seq![
        ("storeCode"@, JVal::Str(store@)),
        ("items"@, iv),
        ("orderType"@, JVal::Int(PAGE_ORDER_TYPE as int)),
        ("beType"@, JVal::Int(PAGE_BE_TYPE as int)),
    ] + opt_entry("takeWayCode"@, if take_way@.len() > 0 { Some(take_way@) } else { None }));
    r
}

// ---- menu page decisions and texts ----

/// What choosing a meal on the menu page leads to, once its detail is known.
#[derive(PartialEq, Eq, Structural, Clone, Copy, Debug)]
pub enum DetailPage {
    /// A single product without modifications: added to the basket.
    AddProduct,
    /// A single product with modification groups: the modification page.
    ProductMods,
    /// A combo: the page of its rounds.
    Combo,
}

pub open spec fn detail_page_spec(d: crate::meal::MealDetail) -> DetailPage {
    if d.rounds@.len() == 0 {
        match d.modification {
            Some(m) => if m.items@.len() > 0 { DetailPage::ProductMods } else { DetailPage::AddProduct },
            None => DetailPage::AddProduct,
        }
    } else {
        DetailPage::Combo
    }
}

/// What choosing a meal leads to (see [`detail_page_spec`]).
pub fn detail_page(d: &crate::meal::MealDetail) -> (r: DetailPage)
    ensures
        r == detail_page_spec(*d),
{
    if d.rounds.len() == 0 {
        match &d.modification {
            Some(m) => if m.items.len() > 0 {
                DetailPage::ProductMods
            } else {
                DetailPage::AddProduct
            },
            None => DetailPage::AddProduct,
        }
    } else {
        DetailPage::Combo
    }
}

/// The part of the menu page under a click: the search line at the top row,
/// else the category, item or basket pane by the column.
pub open spec fn pane_at_spec(col: u16, row: u16, top: u16, categories_right: u16, items_right: u16) -> MenuFocus {
    if row == top {
        MenuFocus::Search
    } else if col < categories_right {
        MenuFocus::Category
    } else if col < items_right {
        MenuFocus::Items
    } else {
        MenuFocus::Basket
    }
}

/// The part of the menu page under a click (see [`pane_at_spec`]).
pub fn pane_at(col: u16, row: u16, top: u16, categories_right: u16, items_right: u16) -> (r: MenuFocus)
    ensures
        r == pane_at_spec(col, row, top, categories_right, items_right),
{
    if row == top {
        MenuFocus::Search
    } else if col < categories_right {
        MenuFocus::Category
    } else if col < items_right {
        MenuFocus::Items
    } else {
        MenuFocus::Basket
    }
}

/// The rows of the category pane: `全部` first, then each category.
pub open spec fn category_rows_spec(cats: Seq<Seq<char>>) -> Seq<Seq<char>> {
    seq!["  全部 "@] + Seq::new(cats.len(), |i: int| "  "@ + cats[i] + " "@)
}

/// The rows of the category pane (see [`category_rows_spec`]).
pub fn category_rows(cats: &Vec<String>) -> (r: Vec<String>)
    ensures
        views(r@) == category_rows_spec(views(cats@)),
{
    let mut rows: Vec<String> = Vec::new();
    rows.push("  全部 ".to_owned());
    let mut i: usize = 0;
    assert(views(rows@) =~= seq!["  全部 "@] + Seq::new(0, |k: int| "  "@ + cats@[k]@ + " "@));
    while i < cats.len()
        invariant
            i <= cats@.len(),
            views(rows@) == seq!["  全部 "@] + Seq::new(i as nat, |k: int| "  "@ + cats@[k]@ + " "@),
        decreases cats@.len() - i,
    {
        let mut row = "  ".to_owned();
        row.append(cats[i].as_str());
        row.append(" ");
        let ghost before = rows@;
        rows.push(row);
        assert(views(rows@) =~= views(before).push(row@));
        assert(views(rows@) =~= seq!["  全部 "@] + Seq::new((i + 1) as nat, |k: int| "  "@ + cats@[k]@ + " "@));
        i += 1;
    }
    assert(Seq::new(cats@.len(), |k: int| "  "@ + cats@[k]@ + " "@) =~= Seq::new(
        views(cats@).len(),
        |k: int| "  "@ + views(cats@)[k] + " "@,
    ));
    rows
}

/// The number of items in the basket, shown in its title.
pub fn basket_count(basket: &Vec<BasketItem>) -> (r: u32)
    requires
        basket_total(basket@) <= u32::MAX,
    ensures
        r == basket_total(basket@),
{
    let mut total: u32 = 0;
    let mut i: usize = 0;
    while i < basket.len()
        invariant
            i <= basket@.len(),
            basket_total(basket@) <= u32::MAX,
            total == basket_total(basket@.take(i as int)),
        decreases basket@.len() - i,
    {
        assert(basket@.take(i + 1).drop_last() =~= basket@.take(i as int));
        proof {
            lemma_total_prefix(basket@, i + 1);
        }
        total = total + basket[i].qty;
        i += 1;
    }
    assert(basket@.take(basket@.len() as int) =~= basket@);
    total
}

proof fn lemma_total_prefix(b: Seq<BasketItem>, k: int)
    requires
        0 <= k <= b.len(),
    ensures
        basket_total(b.take(k)) <= basket_total(b),
    decreases b.len() - k,
{
    if k < b.len() {
        lemma_total_prefix(b, k + 1);
        assert(b.take(k + 1).drop_last() =~= b.take(k));
    } else {
        assert(b.take(k) =~= b);
    }
}

/// The detail line of a combo in the basket: each picked choice's name, with
/// its modification names in `（…）` joined by ` / ` where it has any.
pub open spec fn combo_sub_lines_spec(
    d: crate::meal::MealDetail,
    picks: Seq<Vec<usize>>,
    mods: Seq<Vec<Option<crate::meal::ModSelection>>>,
    k: int,
) -> Seq<Seq<char>>
    decreases k,
{
    if k <= 0 {
        Seq::empty()
    } else {
        let prev = combo_sub_lines_spec(d, picks, mods, k - 1);
        let ri = k - 1;
        if ri < picks.len() {
            prev + combo_pick_lines(d.rounds@[ri], picks[ri]@, mods, ri, picks[ri]@.len() as int)
        } else {
            prev
        }
    }
}

/// The lines of the first `k` picks of round `ri`.
pub open spec fn combo_pick_lines(
    round: crate::meal::Round,
    rp: Seq<usize>,
    mods: Seq<Vec<Option<crate::meal::ModSelection>>>,
    ri: int,
    k: int,
) -> Seq<Seq<char>>
    decreases k,
{
    if k <= 0 {
        Seq::empty()
    } else {
        let prev = combo_pick_lines(round, rp, mods, ri, k - 1);
        let ci = rp[k - 1];
        if ci < round.choices@.len() {
            let c = round.choices@[ci as int];
            let names = match crate::meal::mod_at(mods, ri, k - 1) {
                Some(sel) => crate::meal::selected_names(c, sel),
                None => Seq::empty(),
            };
            prev.push(
                if names.len() > 0 {
                    c.name@ + "（"@ + crate::text::join(names, " / "@) + "）"@
                } else {
                    c.name@
                },
            )
        } else {
            prev
        }
    }
}

// ---- the menu page ----

/// The search box line of the menu page: the search text, with a cursor mark
/// while the search box has the focus.
pub open spec fn search_line_text(search: Seq<char>, focused: bool) -> Seq<char> {
    search + if focused { "▎"@ } else { Seq::empty() }
}

/// The search box line of the menu page (see [`search_line_text`]).
pub fn menu_search_line(search: &str, focused: bool) -> (r: String)
    ensures
        r@ == search_line_text(search@, focused),
{
    let mut r = search.to_owned();
    if focused {
        r.append("▎");
    }
    r
}

/// The row of a menu entry in the item pane: its name, its price, and a tag
/// for an entry that can only be bought with an order.
pub open spec fn menu_row_text(m: MenuItem) -> Seq<char> {
    " "@ + m.name@ + " "@ + "¥"@ + m.price@ + if m.with_order { " [随单购]"@ } else { Seq::empty() }
}

/// The rows of the item pane: one per visible entry, in the order of `visible`.
pub fn menu_item_rows(items: &Vec<MenuItem>, visible: &Vec<usize>) -> (r: Vec<String>)
    requires
        forall|i: int| 0 <= i < visible@.len() ==> visible@[i] < items@.len(),
    ensures
        views(r@) == Seq::new(visible@.len(), |i: int| menu_row_text(items@[visible@[i] as int])),
{
    let mut rows: Vec<String> = Vec::new();
    let mut i: usize = 0;
    while i < visible.len()
        invariant
            i <= visible@.len(),
            forall|k: int| 0 <= k < visible@.len() ==> visible@[k] < items@.len(),
            views(rows@) == Seq::new(i as nat, |k: int| menu_row_text(items@[visible@[k] as int])),
        decreases visible@.len() - i,
    {
        let m = &items[visible[i]];
        let mut row = " ".to_owned();
        row.append(m.name.as_str());
        row.append(" ");
        row.append("¥");
        row.append(m.price.as_str());
        if m.with_order {
            row.append(" [随单购]");
        }
        let ghost before = rows@;
        rows.push(row);
        assert(views(rows@) =~= views(before).push(row@));
        assert(views(rows@) =~= Seq::new((i + 1) as nat, |k: int| menu_row_text(items@[visible@[k] as int])));
        i += 1;
    }
    rows
}

/// The titles of the item pane and of the basket pane: the number of visible
/// entries, and the number of items in the basket.
pub fn menu_pane_titles(visible_len: usize, basket_total: u32) -> (r: (String, String))
    ensures
        r.0@ == " 餐品（"@ + nat_text(visible_len as nat) + " 件） "@,
        r.1@ == " 购物篮（"@ + nat_text(basket_total as nat) + " 件） "@,
{
    let mut items = " 餐品（".to_owned();
    let n = usize_text(visible_len);
    items.append(n.as_str());
    items.append(" 件） ");
    let mut basket = " 购物篮（".to_owned();
    let t = usize_text(basket_total as usize);
    basket.append(t.as_str());
    basket.append(" 件） ");
    (items, basket)
}

/// What the basket pane shows while the basket is empty.
pub fn empty_basket_note() -> (r: String)
    ensures
        r@ == "空，去菜单加购吧\n\n选中购物篮后:\nd 删除 · p 计价 · c 清空"@,
{
    "空，去菜单加购吧\n\n选中购物篮后:\nd 删除 · p 计价 · c 清空".to_owned()
}

/// The lines of a basket entry: its label and quantity, then one line for
/// each part of its detail, the parts being separated by ` + `.
pub open spec fn basket_row_text(b: BasketItem) -> Seq<Seq<char>> {
    seq![" "@ + b.label@ + " "@ + "x"@ + nat_text(b.qty as nat)] + if b.detail@.len() == 0 {
        Seq::<Seq<char>>::empty()
    } else {
        let parts = split_str(b.detail@, " + "@);
        Seq::new(parts.len(), |k: int| "   · "@ + parts[k])
    }
}

/// The lines of a basket entry (see [`basket_row_text`]).
pub fn basket_row_lines(b: &BasketItem) -> (r: Vec<String>)
    ensures
        views(r@) == basket_row_text(*b),
{
    let mut head = " ".to_owned();
    head.append(b.label.as_str());
    head.append(" ");
    head.append("x");
    let q = usize_text(b.qty as usize);
    head.append(q.as_str());
    let mut lines: Vec<String> = Vec::new();
    lines.push(head);
    if b.detail.as_str().is_empty() {
        assert(views(lines@) =~= basket_row_text(*b));
        return lines;
    }
    proof {
        reveal_strlit(" + ");
    }
    let parts = split_text(b.detail.as_str(), " + ");
    let ghost first = views(lines@);
    let mut k: usize = 0;
    while k < parts.len()
        invariant
            k <= parts@.len(),
            views(parts@) == split_str(b.detail@, " + "@),
            views(lines@) == first + Seq::new(k as nat, |j: int| "   · "@ + parts@[j]@),
        decreases parts@.len() - k,
    {
        let mut line = "   · ".to_owned();
        line.append(parts[k].as_str());
        let ghost before = lines@;
        lines.push(line);
        assert(views(lines@) =~= views(before).push(line@));
        assert(views(lines@) =~= first + Seq::new((k + 1) as nat, |j: int| "   · "@ + parts@[j]@));
        k += 1;
    }
    assert(Seq::new(parts@.len(), |j: int| "   · "@ + parts@[j]@) =~= Seq::new(
        split_str(b.detail@, " + "@).len(),
        |j: int| "   · "@ + split_str(b.detail@, " + "@)[j],
    ));
    lines
}

/// What Enter on the item pane does.
#[derive(Debug)]
pub enum MenuPick {
    /// No entry is under the cursor.
    Nothing,
    /// The entry can only be bought with an order: it is refused with the
    /// status message.
    Refused(String),
    /// The details of the entry at this index of the menu are loaded, with
    /// the status message.
    Load(usize, String),
}

/// The message for an entry that can only be bought with an order.
pub open spec fn with_order_refusal() -> Seq<char> {
    "⚠️ 随单购商品不能单独下单（会按原价结算）"@
}

/// The message while the details of an entry load.
pub open spec fn loading_text(name: Seq<char>) -> Seq<char> {
    "正在加载 "@ + name + " 详情..."@
}

/// Enter on the item pane: the entry under the cursor `selected` among the
/// visible entries `visible`; refused where it can only be bought with an
/// order, else loaded.
pub fn menu_pick(items: &Vec<MenuItem>, visible: &Vec<usize>, selected: Option<usize>) -> (r: MenuPick)
    requires
        forall|i: int| 0 <= i < visible@.len() ==> visible@[i] < items@.len(),
    ensures
        match selected {
            Some(s) if s < visible@.len() => {
                let m = items@[visible@[s as int] as int];
                if m.with_order {
                    r matches MenuPick::Refused(t) && t@ == with_order_refusal()
                } else {
                    r matches MenuPick::Load(k, t) && k == visible@[s as int] && t@ == loading_text(m.name@)
                }
            },
            _ => r is Nothing,
        },
{
    match selected {
        Some(s) => {
            if s < visible.len() {
                let k = visible[s];
                let m = &items[k];
                if m.with_order {
                    MenuPick::Refused("⚠️ 随单购商品不能单独下单（会按原价结算）".to_owned())
                } else {
                    let mut t = "正在加载 ".to_owned();
                    t.append(m.name.as_str());
                    t.append(" 详情...");
                    MenuPick::Load(k, t)
                }
            } else {
                MenuPick::Nothing
            }
        },
        None => MenuPick::Nothing,
    }
}

// ---- the combo page ----

/// The title line of the combo page: the meal's name.
pub open spec fn combo_title_text(d: crate::meal::MealDetail) -> Seq<char> {
    " "@ + d.name@ + " "@
}

/// The title line of the combo page (see [`combo_title_text`]).
pub fn combo_title(d: &crate::meal::MealDetail) -> (r: String)
    ensures
        r@ == combo_title_text(*d),
{
    let mut t = " ".to_owned();
    t.append(d.name.as_str());
    t.append(" ");
    t
}

/// A row of the combo page: a round's header with its number among all
/// rounds, its name and bounds; or a choice with its mark, name, price
/// difference and a tag where it can be customised.
pub open spec fn combo_row_text(d: crate::meal::MealDetail, toggles: Seq<Vec<bool>>, row: (usize, Option<usize>)) -> Seq<char> {
    let round = d.rounds@[row.0 as int];
    match row.1 {
        None => "  ── 轮次"@ + nat_text(row.0 as nat + 1) + "/"@ + nat_text(d.rounds@.len()) + "【"@ + round.name@
            + "】 选"@ + int_text(round.min_quantity as int) + "~"@ + int_text(round.max_quantity as int) + "项 ──"@,
        Some(ci) => {
            let c = round.choices@[ci as int];
            (if toggles[row.0 as int]@[ci as int] { "■ "@ } else { "□ "@ }) + c.name@ + " "@ + match c.diff_price {
                Some(p) => p@,
                None => Seq::empty(),
            } + if c.support_modify { " [可特调]"@ } else { Seq::empty() }
        },
    }
}

/// Whether a row names a round of `d` and, for a choice, a choice of that
/// round with a mark.
pub open spec fn combo_row_in(d: crate::meal::MealDetail, toggles: Seq<Vec<bool>>, row: (usize, Option<usize>)) -> bool {
    &&& row.0 < d.rounds@.len()
    &&& row.0 < toggles.len()
    &&& (row.1 matches Some(ci) ==> ci < d.rounds@[row.0 as int].choices@.len() && ci < toggles[row.0 as int]@.len())
}

fn combo_row(d: &crate::meal::MealDetail, toggles: &Vec<Vec<bool>>, row: (usize, Option<usize>)) -> (r: String)
    requires
        combo_row_in(*d, toggles@, row),
    ensures
        r@ == combo_row_text(*d, toggles@, row),
{
    let round = &d.rounds[row.0];
    let count = d.rounds.len();
    assert(row.0 < count);
    match row.1 {
        None => {
            let mut t = "  ── 轮次".to_owned();
            let no = usize_text(row.0 + 1);
            t.append(no.as_str());
            t.append("/");
            let n = usize_text(count);
            t.append(n.as_str());
            t.append("【");
            t.append(round.name.as_str());
            t.append("】 选");
            let lo = i64_text(round.min_quantity);
            t.append(lo.as_str());
            t.append("~");
            let hi = i64_text(round.max_quantity);
            t.append(hi.as_str());
            t.append("项 ──");
            t
        },
        Some(ci) => {
            let c = &round.choices[ci];
            let mut t = if toggles[row.0][ci] {
                "■ ".to_owned()
            } else {
                "□ ".to_owned()
            };
            t.append(c.name.as_str());
            t.append(" ");
            match &c.diff_price {
                Some(p) => t.append(p.as_str()),
                None => {},
            }
            if c.support_modify {
                t.append(" [可特调]");
            }
            t
        },
    }
}

/// The rows of the combo page for the rows `flat` (see [`combo_row_text`]).
pub fn combo_popup_rows(
    d: &crate::meal::MealDetail,
    toggles: &Vec<Vec<bool>>,
    flat: &Vec<(usize, Option<usize>)>,
) -> (r: Vec<String>)
    requires
        forall|k: int| 0 <= k < flat@.len() ==> combo_row_in(*d, toggles@, #[trigger] flat@[k]),
    ensures
        views(r@) == Seq::new(flat@.len(), |k: int| combo_row_text(*d, toggles@, flat@[k])),
{
    let mut rows: Vec<String> = Vec::new();
    let mut k: usize = 0;
    while k < flat.len()
        invariant
            k <= flat@.len(),
            forall|j: int| 0 <= j < flat@.len() ==> combo_row_in(*d, toggles@, #[trigger] flat@[j]),
            views(rows@) == Seq::new(k as nat, |j: int| combo_row_text(*d, toggles@, flat@[j])),
        decreases flat@.len() - k,
    {
        let row = combo_row(d, toggles, flat[k]);
        let ghost before = rows@;
        rows.push(row);
        assert(views(rows@) =~= views(before).push(row@));
        assert(views(rows@) =~= Seq::new((k + 1) as nat, |j: int| combo_row_text(*d, toggles@, flat@[j])));
        k += 1;
    }
    rows
}

/// The detail lines of a combo in the basket (see [`combo_sub_lines_spec`]).
pub fn combo_sub_lines(
    d: &crate::meal::MealDetail,
    picks: &Vec<Vec<usize>>,
    mods: &Vec<Vec<Option<crate::meal::ModSelection>>>,
) -> (r: Vec<String>)
    ensures
        views(r@) == combo_sub_lines_spec(*d, picks@, mods@, d.rounds@.len() as int),
{
    let mut lines: Vec<String> = Vec::new();
    let mut ri: usize = 0;
    while ri < d.rounds.len()
        invariant
            ri <= d.rounds@.len(),
            views(lines@) == combo_sub_lines_spec(*d, picks@, mods@, ri as int),
        decreases d.rounds@.len() - ri,
    {
        if ri < picks.len() {
            let round = &d.rounds[ri];
            let rp = &picks[ri];
            let ghost base = views(lines@);
            let mut pi: usize = 0;
            assert(base =~= base + combo_pick_lines(*round, rp@, mods@, ri as int, 0));
            while pi < rp.len()
                invariant
                    pi <= rp@.len(),
                    views(lines@) == base + combo_pick_lines(*round, rp@, mods@, ri as int, pi as int),
                decreases rp@.len() - pi,
            {
                let ci = rp[pi];
                if ci < round.choices.len() {
                    let c = &round.choices[ci];
                    let names: Vec<String> = if ri < mods.len() && pi < mods[ri].len() {
                        match &mods[ri][pi] {
                            Some(sel) => crate::meal::selected_mod_names(c, sel),
                            None => Vec::new(),
                        }
                    } else {
                        Vec::new()
                    };
                    let mut line = c.name.clone();
                    if names.len() > 0 {
                        line.append("（");
                        let joined = crate::text::join_strings(&names, " / ");
                        line.append(joined.as_str());
                        line.append("）");
                    }
                    let ghost before = lines@;
                    lines.push(line);
                    assert(views(lines@) =~= views(before).push(line@));
                }
                pi += 1;
            }
        }
        ri += 1;
    }
    lines
}

// ---- price page ----

/// The price lines of a price calculation (amounts in cents): each product
/// with quantity and subtotal, the delivery, packing and discount amounts
/// that are positive, and the total.
pub open spec fn price_page_lines(d: JVal) -> Seq<Seq<char>> {
    (match d.arr_at("productList"@) {
        Some(ps) => Seq::new(ps.len(), |k: int| product_price_text(ps[k])),
        None => Seq::empty(),
    }) + price_total_lines(d)
}

/// The ways to take the meal: `title — subtitle` with the code of each.
pub open spec fn take_way_options(d: JVal) -> Seq<(Seq<char>, Seq<char>)> {
    match d.arr_at("takeWayList"@) {
        Some(tws) => Seq::new(
            tws.len(),
            |k: int| (text_or(tws[k], "title"@, "-"@) + " — "@ + text_or(tws[k], "subtitle"@, ""@), text_or(tws[k], "code"@, ""@)),
        ),
        None => Seq::empty(),
    }
}

pub open spec fn pair_views(v: Seq<(String, String)>) -> Seq<(Seq<char>, Seq<char>)> {
    Seq::new(v.len(), |i: int| (v[i].0@, v[i].1@))
}

/// The line of a priced product on the price page.
pub open spec fn product_price_text(p: JVal) -> Seq<char> {
    text_or(p, "productName"@, "-"@) + " x"@ + int_text(int_or(p, "quantity"@, 0)) + "  "@ + money_cents_text(
        int_or(p, "subtotal"@, 0),
    )
}

/// The lines after the products: positive delivery, packing and discount
/// amounts, and the total.
pub open spec fn price_total_lines(d: JVal) -> Seq<Seq<char>> {
    let price = int_or(d, "price"@, 0);
    let delivery = int_or(d, "deliveryPrice"@, 0);
    let packing = int_or(d, "packingPrice"@, 0);
    let discount = int_or(d, "discount"@, 0);
    (if delivery > 0 { seq!["配送费  "@ + money_cents_text(delivery)] } else { Seq::empty() })
        + (if packing > 0 { seq!["打包费  "@ + money_cents_text(packing)] } else { Seq::empty() })
        + (if discount > 0 { seq!["优惠  -"@ + money_cents_text(discount)] } else { Seq::empty() })
        + seq!["实付合计  "@ + money_cents_text(price)]
}

fn product_price_line(p: &Json) -> (r: String)
    ensures
        r@ == product_price_text(p@),
{
    let mut line = text_at(p, "productName", "-");
    line.append(" x");
    let q = i64_text(int_at(p, "quantity", 0));
    line.append(q.as_str());
    line.append("  ");
    let m = money_cents(int_at(p, "subtotal", 0));
    line.append(m.as_str());
    line
}

fn push_line_if(lines: &mut Vec<String>, cond: bool, head: &str, cents: i64)
    ensures
        views(final(lines)@) == views(old(lines)@) + if cond {
            seq![head@ + money_cents_text(cents as int)]
        } else {
            Seq::empty()
        },
{
    if cond {
        let mut l = head.to_owned();
        let m = money_cents(cents);
        l.append(m.as_str());
        let ghost before = lines@;
        lines.push(l);
        assert(views(lines@) =~= views(before).push(l@));
    } else {
        assert(views(lines@) =~= views(old(lines)@) + Seq::empty());
    }
}

fn price_totals_lines(d: &Json) -> (r: Vec<String>)
    ensures
        views(r@) == price_total_lines(d@),
{
    let price = int_at(d, "price", 0);
    let delivery = int_at(d, "deliveryPrice", 0);
    let packing = int_at(d, "packingPrice", 0);
    let discount = int_at(d, "discount", 0);
    let mut lines: Vec<String> = Vec::new();
    assert(views(lines@) =~= Seq::<Seq<char>>::empty());
    push_line_if(&mut lines, delivery > 0, "配送费  ", delivery);
    push_line_if(&mut lines, packing > 0, "打包费  ", packing);
    push_line_if(&mut lines, discount > 0, "优惠  -", discount);
    push_line_if(&mut lines, true, "实付合计  ", price);
    assert(views(lines@) =~= price_total_lines(d@));
    lines
}

/// The price page of a price calculation's `data`: its lines and the ways to
/// take the meal (see [`price_page_lines`] and [`take_way_options`]).
#[verifier::rlimit(40)]
pub fn price_page(d: &Json) -> (r: (Vec<String>, Vec<(String, String)>))
    ensures
        views(r.0@) == price_page_lines(d@),
        pair_views(r.1@) == take_way_options(d@),
{
    let mut lines: Vec<String> = Vec::new();
    match d.get_array("productList") {
        Some(ps) => {
            let mut k: usize = 0;
            while k < ps.len()
                invariant
                    k <= ps@.len(),
                    views(lines@) == Seq::new(k as nat, |j: int| product_price_text(ps@[j]@)),
                decreases ps@.len() - k,
            {
                let line = product_price_line(&ps[k]);
                let ghost before = lines@;
                lines.push(line);
                assert(views(lines@) =~= views(before).push(line@));
                assert(views(lines@) =~= Seq::new((k + 1) as nat, |j: int| product_price_text(ps@[j]@)));
                k += 1;
            }
            assert(views(lines@) =~= Seq::new(jvs(ps@).len(), |j: int| product_price_text(jvs(ps@)[j])));
        },
        None => {
            assert(views(lines@) =~= Seq::<Seq<char>>::empty());
        },
    }
    let ghost products = views(lines@);
    let totals = price_totals_lines(d);
    let mut t: usize = 0;
    while t < totals.len()
        invariant
            t <= totals@.len(),
            views(lines@) == products + views(totals@).take(t as int),
        decreases totals@.len() - t,
    {
        let ghost before = lines@;
        let line = totals[t].clone();
        assert(line@ == totals@[t as int]@);
        lines.push(line);
        assert(views(lines@) =~= views(before).push(line@));
        assert(views(totals@).take(t + 1) =~= views(totals@).take(t as int).push(line@));
        assert(views(lines@) =~= products + views(totals@).take(t + 1));
        t += 1;
    }
    assert(views(totals@).take(totals@.len() as int) =~= views(totals@));
    assert(views(lines@) =~= price_page_lines(d@));
    let mut ways: Vec<(String, String)> = Vec::new();
    match d.get_array("takeWayList") {
        Some(tws) => {
            let mut k: usize = 0;
            while k < tws.len()
                invariant
                    k <= tws@.len(),
                    pair_views(ways@) == Seq::new(
                        k as nat,
                        |j: int| (text_or(tws@[j]@, "title"@, "-"@) + " — "@ + text_or(tws@[j]@, "subtitle"@, ""@), text_or(tws@[j]@, "code"@, ""@)),
                    ),
                decreases tws@.len() - k,
            {
                let tw = &tws[k];
                let mut label = text_at(tw, "title", "-");
                label.append(" — ");
                let sub = text_at(tw, "subtitle", "");
                label.append(sub.as_str());
                let code = text_at(tw, "code", "");
                let ghost before = ways@;
                ways.push((label, code));
                assert(pair_views(ways@) =~= pair_views(before).push((label@, code@)));
                assert(pair_views(ways@) =~= Seq::new(
                    (k + 1) as nat,
                    |j: int| (text_or(tws@[j]@, "title"@, "-"@) + " — "@ + text_or(tws@[j]@, "subtitle"@, ""@), text_or(tws@[j]@, "code"@, ""@)),
                ));
                k += 1;
            }
            assert(pair_views(ways@) =~= take_way_options(d@));
        },
        None => {
            assert(pair_views(ways@) =~= take_way_options(d@));
        },
    }
    (lines, ways)
}

} // verus!
