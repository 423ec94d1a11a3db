//! The quick order of the interactive session as a state machine: items are
//! added to a basket, the basket is priced, and the order is created only
//! after a successful price of that basket and a confirming answer.
use vstd::prelude::*;
use crate::json::{Json, JVal, jv, jvs};
use crate::session::confirmed;
use crate::text::{nat_text, usize_text};

verus! {

/// The stages of a quick order.
#[derive(PartialEq, Eq, Structural, Clone, Copy, Debug)]
pub enum QuickStage {
    /// Product codes are asked for and their items added.
    Adding,
    /// The basket is being priced.
    Pricing,
    /// The price is shown and the order awaits confirmation.
    Confirming,
    /// The quick order is over.
    Done,
}

/// What happens in a quick order.
#[derive(Debug)]
pub enum QuickEvent {
    /// A product code was entered; empty ends the adding.
    Code(String),
    /// The item of a product, as selected.
    Selected(Json),
    /// Pricing the basket succeeded or failed.
    Priced(bool),
    /// The answer to the confirmation question.
    Answer(String),
}

/// The view of an event.
pub enum QuickEv {
    Code(Seq<char>),
    Selected(JVal),
    Priced(bool),
    Answer(Seq<char>),
}

impl View for QuickEvent {
    type V = QuickEv;

    open spec fn view(&self) -> QuickEv {
        match self {
            QuickEvent::Code(c) => QuickEv::Code(c@),
            QuickEvent::Selected(j) => QuickEv::Selected(j@),
            QuickEvent::Priced(ok) => QuickEv::Priced(*ok),
            QuickEvent::Answer(a) => QuickEv::Answer(a@),
        }
    }
}

/// What the program does next in a quick order.
#[derive(PartialEq, Eq, Debug)]
pub enum QuickAction {
    /// Look up this product and let its item be selected.
    Fetch(String),
    /// Say that the item was added, with this message.
    Added(String),
    /// End: the basket is empty, with this message.
    Empty(String),
    /// Price the basket.
    Price,
    /// Ask for confirmation.
    Ask,
    /// Create the order of the basket.
    Create,
    /// End: the order was not confirmed, with this message.
    Cancelled(String),
    /// Nothing.
    Nothing,
}

/// The view of an action.
pub enum QuickAct {
    Fetch(Seq<char>),
    Added(Seq<char>),
    Empty(Seq<char>),
    Price,
    Ask,
    Create,
    Cancelled(Seq<char>),
    Nothing,
}

impl View for QuickAction {
    type V = QuickAct;

    open spec fn view(&self) -> QuickAct {
        match self {
            QuickAction::Fetch(c) => QuickAct::Fetch(c@),
            QuickAction::Added(m) => QuickAct::Added(m@),
            QuickAction::Empty(m) => QuickAct::Empty(m@),
            QuickAction::Price => QuickAct::Price,
            QuickAction::Ask => QuickAct::Ask,
            QuickAction::Create => QuickAct::Create,
            QuickAction::Cancelled(m) => QuickAct::Cancelled(m@),
            QuickAction::Nothing => QuickAct::Nothing,
        }
    }
}

/// A quick order: its stage and the items of its basket.
#[derive(Debug)]
pub struct QuickOrder {
    stage: QuickStage,
    basket: Vec<Json>,
}

/// The state of a quick order: its stage and the views of its items.
pub type QuickState = (QuickStage, Seq<JVal>);

impl View for QuickOrder {
    type V = QuickState;

    closed spec fn view(&self) -> QuickState {
        (self.stage, jvs(self.basket@))
    }
}

/// The message after an item was added to a basket of `n` items.
pub open spec fn added_text(n: nat) -> Seq<char> {
    "✅ 已加入购物篮，共 "@ + nat_text(n) + " 件"@
}

/// Whether an answer confirms the order: `y` in either case.
pub open spec fn confirms(a: Seq<char>) -> bool {
    a == "y"@ || a == "Y"@
}

/// One step of a quick order:
/// - while adding, an empty code ends the adding: with an empty basket the
///   quick order ends, else the basket is priced; another code is looked up;
///   a selected item joins the basket;
/// - while pricing, success asks for confirmation and failure ends;
/// - while confirming, `y` creates the order and any other answer cancels it;
/// - any other event changes nothing.
pub open spec fn quick_step_spec(s: QuickState, e: QuickEv) -> (QuickState, QuickAct) {
    let (stage, basket) = s;
    match stage {
        QuickStage::Adding => match e {
            QuickEv::Code(c) => if c.len() == 0 {
                if basket.len() == 0 {
                    ((QuickStage::Done, basket), QuickAct::Empty("购物篮为空，返回菜单"@))
                } else {
                    ((QuickStage::Pricing, basket), QuickAct::Price)
                }
            } else {
                (s, QuickAct::Fetch(c))
            },
            QuickEv::Selected(j) => ((stage, basket.push(j)), QuickAct::Added(added_text(basket.len() + 1))),
            _ => (s, QuickAct::Nothing),
        },
        QuickStage::Pricing => match e {
            QuickEv::Priced(ok) => if ok {
                ((QuickStage::Confirming, basket), QuickAct::Ask)
            } else {
                ((QuickStage::Done, basket), QuickAct::Nothing)
            },
            _ => (s, QuickAct::Nothing),
        },
        QuickStage::Confirming => match e {
            QuickEv::Answer(a) => if confirms(a) {
                ((QuickStage::Done, basket), QuickAct::Create)
            } else {
                ((QuickStage::Done, basket), QuickAct::Cancelled("已取消下单"@))
            },
            _ => (s, QuickAct::Nothing),
        },
        QuickStage::Done => (s, QuickAct::Nothing),
    }
}

impl QuickOrder {
    /// A quick order that starts adding, with an empty basket.
    pub fn new() -> (r: QuickOrder)
        ensures
            r@ == (QuickStage::Adding, Seq::<JVal>::empty()),
    {
        let r = QuickOrder { stage: QuickStage::Adding, basket: Vec::new() };
        assert(jvs(r.basket@) =~= Seq::<JVal>::empty());
        r
    }

    /// The stage.
    pub fn stage(&self) -> (r: QuickStage)
        ensures
            r == self@.0,
    {
        self.stage
    }

    /// The items of the basket.
    pub fn basket(&self) -> (r: &Vec<Json>)
        ensures
            jvs(r@) == self@.1,
    {
        &self.basket
    }

    /// Takes one event (see [`quick_step_spec`]).
    pub fn step(&mut self, e: QuickEvent) -> (r: QuickAction)
        ensures
            (final(self)@, r@) == quick_step_spec(old(self)@, e@),
    {
        match self.stage {
            QuickStage::Adding => match e {
                QuickEvent::Code(c) => {
                    if c.as_str().is_empty() {
                        if self.basket.len() == 0 {
                            self.stage = QuickStage::Done;
                            QuickAction::Empty("购物篮为空，返回菜单".to_owned())
                        } else {
                            self.stage = QuickStage::Pricing;
                            QuickAction::Price
                        }
                    } else {
                        QuickAction::Fetch(c)
                    }
                },
                QuickEvent::Selected(j) => {
                    let ghost before = self.basket@;
                    self.basket.push(j);
                    assert(jvs(self.basket@) =~= jvs(before).push(jv(self.basket@[before.len() as int])));
                    let mut m = "✅ 已加入购物篮，共 ".to_owned();
                    let n = usize_text(self.basket.len());
                    m.append(n.as_str());
                    m.append(" 件");
                    QuickAction::Added(m)
                },
                _ => QuickAction::Nothing,
            },
            QuickStage::Pricing => match e {
                QuickEvent::Priced(ok) => {
                    if ok {
                        self.stage = QuickStage::Confirming;
                        QuickAction::Ask
                    } else {
                        self.stage = QuickStage::Done;
                        QuickAction::Nothing
                    }
                },
                _ => QuickAction::Nothing,
            },
            QuickStage::Confirming => match e {
                QuickEvent::Answer(a) => {
                    self.stage = QuickStage::Done;
                    if confirmed(a.as_str()) {
                        QuickAction::Create
                    } else {
                        QuickAction::Cancelled("已取消下单".to_owned())
                    }
                },
                _ => QuickAction::Nothing,
            },
            QuickStage::Done => QuickAction::Nothing,
        }
    }
}

/// The state of a quick order after the first `n` events.
pub open spec fn quick_run(events: Seq<QuickEv>, n: int) -> QuickState
    decreases n,
{
    if n <= 0 {
        (QuickStage::Adding, Seq::empty())
    } else {
        quick_step_spec(quick_run(events, n - 1), events[n - 1]).0
    }
}

/// What the quick order does on its `k`-th event.
pub open spec fn quick_action_at(events: Seq<QuickEv>, k: int) -> QuickAct {
    quick_step_spec(quick_run(events, k), events[k]).1
}

proof fn lemma_quick_run(events: Seq<QuickEv>, n: int)
    requires
        0 <= n <= events.len(),
    ensures
        ({
            let s = quick_run(events, n);
            &&& (s.0 == QuickStage::Pricing || s.0 == QuickStage::Confirming) ==> s.1.len() > 0
            &&& s.0 == QuickStage::Confirming ==> exists|j: int|
                0 <= j < n && (#[trigger] events[j] matches QuickEv::Priced(ok) && ok) && quick_run(events, j)
                    == (QuickStage::Pricing, s.1)
        }),
    decreases n,
{
    if n > 0 {
        lemma_quick_run(events, n - 1);
        let p = quick_run(events, n - 1);
        let s = quick_run(events, n);
        if s.0 == QuickStage::Confirming {
            if p.0 == QuickStage::Confirming {
                let j = choose|j: int|
                    0 <= j < n - 1 && (#[trigger] events[j] matches QuickEv::Priced(ok) && ok) && quick_run(events, j)
                        == (QuickStage::Pricing, p.1);
                assert(0 <= j < n && (events[j] matches QuickEv::Priced(ok) && ok) && quick_run(events, j) == (
                    QuickStage::Pricing,
                    s.1,
                ));
            } else {
                assert(p.0 == QuickStage::Pricing);
                assert(events[n - 1] matches QuickEv::Priced(ok) && ok);
                assert(quick_run(events, n - 1) == (QuickStage::Pricing, s.1));
            }
        }
    }
}

/// Law: a quick order creates an order only when the answer to the
/// confirmation is `y`, after the basket was priced successfully, and the
/// basket that the order is created from is the one that was priced, and is
/// not empty.
pub proof fn lemma_create_only_after_price(events: Seq<QuickEv>, k: int)
    requires
        0 <= k < events.len(),
        quick_action_at(events, k) == QuickAct::Create,
    ensures
        events[k] matches QuickEv::Answer(a) && confirms(a),
        quick_run(events, k).1.len() > 0,
        exists|j: int|
            0 <= j < k && (#[trigger] events[j] matches QuickEv::Priced(ok) && ok) && quick_run(events, j) == (
                QuickStage::Pricing,
                quick_run(events, k).1,
            ),
        quick_run(events, k + 1).1 == quick_run(events, k).1,
{
    lemma_quick_run(events, k);
    assert(quick_run(events, k).0 == QuickStage::Confirming);
}

} // verus!
