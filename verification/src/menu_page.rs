//! The menu page of the full-screen interface as a state machine: the focus,
//! the search text and the three list cursors, changed by keys, clicks and
//! the scroll wheel.
use vstd::prelude::*;
use crate::screens::{MenuFocus, FocusKey, focus_after, focus_after_spec};
use crate::nav::{list_prev, list_next, prev_spec, next_spec, list_index_at, index_at_spec};
use crate::text::{chars_of, string_of, push_char};

verus! {

/// The keys of the menu page.
#[derive(PartialEq, Eq, Structural, Clone, Copy, Debug)]
pub enum MenuKey {
    Tab,
    Left,
    Right,
    Up,
    Down,
    Enter,
    Esc,
    Backspace,
    Char(char),
}

/// What a key on the menu page asks of the program beyond the page's state.
#[derive(PartialEq, Eq, Structural, Clone, Copy, Debug)]
pub enum MenuAction {
    /// Nothing more.
    Stay,
    /// Enter on the item pane: open the entry under the cursor.
    Pick,
    /// `d` on the basket: remove the entry under the cursor.
    Remove,
    /// `c` on the basket: empty it.
    Clear,
    /// `p` on the basket: price it.
    Price,
}

/// The state of the menu page: the focus, the search text, and the cursors
/// of the category pane (row 0 is all categories), the item pane and the
/// basket pane.
#[derive(Debug)]
pub struct MenuPage {
    pub focus: MenuFocus,
    pub search: String,
    pub category: Option<usize>,
    pub item: Option<usize>,
    pub basket: Option<usize>,
}

impl View for MenuPage {
    type V = (MenuFocus, Seq<char>, Option<usize>, Option<usize>, Option<usize>);

    open spec fn view(&self) -> Self::V {
        (self.focus, self.search@, self.category, self.item, self.basket)
    }
}

impl MenuPage {
    /// The page as it opens on a menu of `menu_len` entries: focus on the
    /// items, no search, all categories, the item cursor on the first entry
    /// where there is one, and the basket cursor where it was.
    pub fn open(menu_len: usize, basket: Option<usize>) -> (r: MenuPage)
        ensures
            r@ == (
                MenuFocus::Items,
                Seq::<char>::empty(),
                Some(0usize),
                if menu_len > 0 { Some(0usize) } else { None },
                basket,
            ),
    {
        let item = if menu_len > 0 {
            Some(0)
        } else {
            None
        };
        MenuPage { focus: MenuFocus::Items, search: String::new(), category: Some(0), item, basket }
    }
}

/// The view of the menu page.
pub type PageView = (MenuFocus, Seq<char>, Option<usize>, Option<usize>, Option<usize>);

/// Up, or `k`.
pub open spec fn is_up(key: MenuKey) -> bool {
    key == MenuKey::Up || key == MenuKey::Char('k')
}

/// Down, or `j`.
pub open spec fn is_down(key: MenuKey) -> bool {
    key == MenuKey::Down || key == MenuKey::Char('j')
}

/// A key on the menu page, with `cats` categories, `visible` visible entries
/// and `basket` entries in the basket:
/// - `/` outside the search opens an empty search; Tab cycles the focus;
///   Left and Right cycle it outside the search.
/// - In the search: Enter and Esc go to the items; Backspace deletes the last
///   character and a character is typed, each putting the item cursor on the
///   first row.
/// - In the categories: up and down move the cursor over `全部` and the
///   categories, putting the item cursor on the first row; Enter goes to the
///   items, `b` to the basket.
/// - In the items: up and down move the cursor; `b` goes to the basket; Enter
///   picks the entry.
/// - In the basket: up and down move the cursor; `d` removes, `c` clears, `p`
///   prices; `l` goes to the items.
pub open spec fn menu_key_spec(v: PageView, key: MenuKey, cats: nat, visible: nat, basket: nat) -> (PageView, MenuAction) {
    let (focus, search, cat, item, bsk) = v;
    if key == MenuKey::Char('/') && focus != MenuFocus::Search {
        ((MenuFocus::Search, Seq::empty(), cat, item, bsk), MenuAction::Stay)
    } else if key == MenuKey::Tab {
        ((focus_after_spec(focus, FocusKey::Tab)->0, search, cat, item, bsk), MenuAction::Stay)
    } else if key == MenuKey::Right && focus != MenuFocus::Search {
        ((focus_after_spec(focus, FocusKey::Right)->0, search, cat, item, bsk), MenuAction::Stay)
    } else if key == MenuKey::Left && focus != MenuFocus::Search {
        ((focus_after_spec(focus, FocusKey::Left)->0, search, cat, item, bsk), MenuAction::Stay)
    } else {
        match focus {
            MenuFocus::Search => match key {
                MenuKey::Enter => ((MenuFocus::Items, search, cat, item, bsk), MenuAction::Stay),
                MenuKey::Esc => ((MenuFocus::Items, search, cat, item, bsk), MenuAction::Stay),
                MenuKey::Backspace => (
                    (focus, if search.len() > 0 { search.drop_last() } else { search }, cat, Some(0usize), bsk),
                    MenuAction::Stay,
                ),
                MenuKey::Char(c) => ((focus, search.push(c), cat, Some(0usize), bsk), MenuAction::Stay),
                _ => (v, MenuAction::Stay),
            },
            MenuFocus::Category => if is_up(key) {
                ((focus, search, prev_spec(cat, cats + 1), Some(0usize), bsk), MenuAction::Stay)
            } else if is_down(key) {
                ((focus, search, next_spec(cat, cats + 1), Some(0usize), bsk), MenuAction::Stay)
            } else if key == MenuKey::Enter {
                ((MenuFocus::Items, search, cat, item, bsk), MenuAction::Stay)
            } else if key == MenuKey::Char('b') {
                ((MenuFocus::Basket, search, cat, item, bsk), MenuAction::Stay)
            } else {
                (v, MenuAction::Stay)
            },
            MenuFocus::Items => if is_up(key) {
                ((focus, search, cat, prev_spec(item, visible), bsk), MenuAction::Stay)
            } else if is_down(key) {
                ((focus, search, cat, next_spec(item, visible), bsk), MenuAction::Stay)
            } else if key == MenuKey::Char('b') {
                ((MenuFocus::Basket, search, cat, item, bsk), MenuAction::Stay)
            } else if key == MenuKey::Enter {
                (v, MenuAction::Pick)
            } else {
                (v, MenuAction::Stay)
            },
            MenuFocus::Basket => if is_up(key) {
                ((focus, search, cat, item, prev_spec(bsk, basket)), MenuAction::Stay)
            } else if is_down(key) {
                ((focus, search, cat, item, next_spec(bsk, basket)), MenuAction::Stay)
            } else if key == MenuKey::Char('d') {
                (v, MenuAction::Remove)
            } else if key == MenuKey::Char('c') {
                (v, MenuAction::Clear)
            } else if key == MenuKey::Char('p') {
                (v, MenuAction::Price)
            } else if key == MenuKey::Char('l') {
                ((MenuFocus::Items, search, cat, item, bsk), MenuAction::Stay)
            } else {
                (v, MenuAction::Stay)
            },
        }
    }
}

fn up_key(key: MenuKey) -> (r: bool)
    ensures
        r == is_up(key),
{
    key == MenuKey::Up || key == MenuKey::Char('k')
}

fn down_key(key: MenuKey) -> (r: bool)
    ensures
        r == is_down(key),
{
    key == MenuKey::Down || key == MenuKey::Char('j')
}

/// `s` without its last character, where it has one.
fn drop_last_char(s: &String) -> (r: String)
    ensures
        r@ == if s@.len() > 0 { s@.drop_last() } else { s@ },
{
    let cs = chars_of(s.as_str());
    if cs.len() == 0 {
        return s.clone();
    }
    let r = string_of(&cs, 0, cs.len() - 1);
    assert(r@ =~= s@.drop_last());
    r
}

/// Applies a key to the menu page (see [`menu_key_spec`]).
pub fn menu_key(page: &mut MenuPage, key: MenuKey, cats: usize, visible: usize, basket: usize) -> (r: MenuAction)
    requires
        cats < usize::MAX,
    ensures
        (final(page)@, r) == menu_key_spec(old(page)@, key, cats as nat, visible as nat, basket as nat),
{
    let focus = page.focus;
    if key == MenuKey::Char('/') && focus != MenuFocus::Search {
        page.focus = MenuFocus::Search;
        page.search = String::new();
        return MenuAction::Stay;
    }
    if key == MenuKey::Tab {
        page.focus = focus_after(focus, FocusKey::Tab).unwrap();
        return MenuAction::Stay;
    }
    if key == MenuKey::Right && focus != MenuFocus::Search {
        page.focus = focus_after(focus, FocusKey::Right).unwrap();
        return MenuAction::Stay;
    }
    if key == MenuKey::Left && focus != MenuFocus::Search {
        page.focus = focus_after(focus, FocusKey::Left).unwrap();
        return MenuAction::Stay;
    }
    match focus {
        MenuFocus::Search => match key {
            MenuKey::Enter | MenuKey::Esc => {
                page.focus = MenuFocus::Items;
                MenuAction::Stay
            },
            MenuKey::Backspace => {
                page.search = drop_last_char(&page.search);
                page.item = Some(0);
                MenuAction::Stay
            },
            MenuKey::Char(c) => {
                push_char(&mut page.search, c);
                page.item = Some(0);
                MenuAction::Stay
            },
            _ => MenuAction::Stay,
        },
        MenuFocus::Category => {
            if up_key(key) {
                page.category = list_prev(page.category, cats + 1);
                page.item = Some(0);
            } else if down_key(key) {
                page.category = list_next(page.category, cats + 1);
                page.item = Some(0);
            } else if key == MenuKey::Enter {
                page.focus = MenuFocus::Items;
            } else if key == MenuKey::Char('b') {
                page.focus = MenuFocus::Basket;
            }
            MenuAction::Stay
        },
        MenuFocus::Items => {
            if up_key(key) {
                page.item = list_prev(page.item, visible);
                MenuAction::Stay
            } else if down_key(key) {
                page.item = list_next(page.item, visible);
                MenuAction::Stay
            } else if key == MenuKey::Char('b') {
                page.focus = MenuFocus::Basket;
                MenuAction::Stay
            } else if key == MenuKey::Enter {
                MenuAction::Pick
            } else {
                MenuAction::Stay
            }
        },
        MenuFocus::Basket => {
            if up_key(key) {
                page.basket = list_prev(page.basket, basket);
                MenuAction::Stay
            } else if down_key(key) {
                page.basket = list_next(page.basket, basket);
                MenuAction::Stay
            } else if key == MenuKey::Char('d') {
                MenuAction::Remove
            } else if key == MenuKey::Char('c') {
                MenuAction::Clear
            } else if key == MenuKey::Char('p') {
                MenuAction::Price
            } else if key == MenuKey::Char('l') {
                page.focus = MenuFocus::Items;
                MenuAction::Stay
            } else {
                MenuAction::Stay
            }
        },
    }
}

/// Where the parts of the menu page lie on the screen: the row of the
/// search box, the border row of the three panes, and the columns where the
/// category and item panes end.
#[derive(Clone, Copy, Debug)]
pub struct MenuLayout {
    pub top: u16,
    pub pane_top: u16,
    pub categories_right: u16,
    pub items_right: u16,
}

/// How far each pane of the menu page is scrolled.
#[derive(Clone, Copy, Debug)]
pub struct MenuScroll {
    pub category: usize,
    pub items: usize,
    pub basket: usize,
}

/// A click on the menu page at `(col, row)`: on the search row, the focus
/// goes to the search; else to the pane under the column, whose cursor moves
/// to the entry under the row, where there is one. Picking a category puts
/// the item cursor on the first row.
pub open spec fn menu_click_spec(
    v: PageView,
    col: u16,
    row: u16,
    l: MenuLayout,
    s: MenuScroll,
    cats: nat,
    visible: nat,
    basket: nat,
) -> PageView {
    let (focus, search, cat, item, bsk) = v;
    if row == l.top {
        (MenuFocus::Search, search, cat, item, bsk)
    } else if col < l.categories_right {
        match index_at_spec(l.pane_top, row, s.category, cats + 1) {
            Some(i) => (MenuFocus::Category, search, Some(i), Some(0usize), bsk),
            None => (MenuFocus::Category, search, cat, item, bsk),
        }
    } else if col < l.items_right {
        match index_at_spec(l.pane_top, row, s.items, visible) {
            Some(i) => (MenuFocus::Items, search, cat, Some(i), bsk),
            None => (MenuFocus::Items, search, cat, item, bsk),
        }
    } else {
        match index_at_spec(l.pane_top, row, s.basket, basket) {
            Some(i) => (MenuFocus::Basket, search, cat, item, Some(i)),
            None => (MenuFocus::Basket, search, cat, item, bsk),
        }
    }
}

/// Applies a click to the menu page (see [`menu_click_spec`]).
pub fn menu_click(
    page: &mut MenuPage,
    col: u16,
    row: u16,
    l: &MenuLayout,
    s: &MenuScroll,
    cats: usize,
    visible: usize,
    basket: usize,
)
    requires
        cats < usize::MAX,
        l.pane_top < u16::MAX,
        row < l.pane_top + 1 || (row - l.pane_top - 1) + s.category <= usize::MAX,
        row < l.pane_top + 1 || (row - l.pane_top - 1) + s.items <= usize::MAX,
        row < l.pane_top + 1 || (row - l.pane_top - 1) + s.basket <= usize::MAX,
    ensures
        final(page)@ == menu_click_spec(old(page)@, col, row, *l, *s, cats as nat, visible as nat, basket as nat),
{
    if row == l.top {
        page.focus = MenuFocus::Search;
    } else if col < l.categories_right {
        page.focus = MenuFocus::Category;
        match list_index_at(l.pane_top, row, s.category, cats + 1) {
            Some(i) => {
                page.category = Some(i);
                page.item = Some(0);
            },
            None => {},
        }
    } else if col < l.items_right {
        page.focus = MenuFocus::Items;
        match list_index_at(l.pane_top, row, s.items, visible) {
            Some(i) => {
                page.item = Some(i);
            },
            None => {},
        }
    } else {
        page.focus = MenuFocus::Basket;
        match list_index_at(l.pane_top, row, s.basket, basket) {
            Some(i) => {
                page.basket = Some(i);
            },
            None => {},
        }
    }
}

/// The scroll wheel on the menu page: it moves the cursor of the pane with
/// the focus, up or down; nothing in the search.
pub open spec fn menu_scroll_spec(v: PageView, up: bool, cats: nat, visible: nat, basket: nat) -> PageView {
    let (focus, search, cat, item, bsk) = v;
    match focus {
        MenuFocus::Category => (focus, search, if up { prev_spec(cat, cats + 1) } else { next_spec(cat, cats + 1) }, item, bsk),
        MenuFocus::Items => (focus, search, cat, if up { prev_spec(item, visible) } else { next_spec(item, visible) }, bsk),
        MenuFocus::Basket => (focus, search, cat, item, if up { prev_spec(bsk, basket) } else { next_spec(bsk, basket) }),
        MenuFocus::Search => v,
    }
}

/// Applies the scroll wheel to the menu page (see [`menu_scroll_spec`]).
pub fn menu_scroll(page: &mut MenuPage, up: bool, cats: usize, visible: usize, basket: usize)
    requires
        cats < usize::MAX,
    ensures
        final(page)@ == menu_scroll_spec(old(page)@, up, cats as nat, visible as nat, basket as nat),
{
    match page.focus {
        MenuFocus::Category => {
            page.category = if up { list_prev(page.category, cats + 1) } else { list_next(page.category, cats + 1) };
        },
        MenuFocus::Items => {
            page.item = if up { list_prev(page.item, visible) } else { list_next(page.item, visible) };
        },
        MenuFocus::Basket => {
            page.basket = if up { list_prev(page.basket, basket) } else { list_next(page.basket, basket) };
        },
        MenuFocus::Search => {},
    }
}

} // verus!
