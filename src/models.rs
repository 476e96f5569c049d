use vstd::prelude::*;

use crate::NO_INGREDIENT_CHANGE;

verus! {

/// The category of an action.
#[derive(Clone, Copy, Debug, PartialEq, Eq, Structural)]
pub enum ActionType {
    Cast,
    Brew,
    Learn,
    Rest,
}

/// What an unlockable spell is made of: the change its casts make, the tier-0
/// cost of unlocking it, and the tier-0 bonus that unlocking grants.
pub ghost struct UnlearntSpellView {
    pub delta: [i32; 4],
    pub read_ahead_tax: int,
    pub tax_gain: int,
}

/// What an order is made of: the ingredient change it takes and its reward.
pub ghost struct OrderView {
    pub delta: [i32; 4],
    pub price: int,
}

/// The mathematical model of an action.
pub ghost enum ActionModel {
    Rest,
    Cast([i32; 4]),
    Learn(UnlearntSpellView),
    Brew(OrderView),
}

/// Returns to a fresh turn: every spell disabled by a cast becomes castable again.
#[derive(Clone, Copy)]
pub struct Rest;

impl Rest {
    pub fn new() -> (r: Rest) {
        Rest {}
    }
}

/// A spell already known: casting it applies a fixed ingredient change.
#[derive(Clone, Copy)]
pub struct LearntSpell {
    ingredient_change: [i32; 4],
}

impl View for LearntSpell {
    type V = [i32; 4];

    closed spec fn view(&self) -> [i32; 4] {
        self.ingredient_change
    }
}

impl LearntSpell {
    pub fn new(ingredient_change: [i32; 4]) -> (r: LearntSpell)
        ensures
            r@ == ingredient_change,
    {
        LearntSpell { ingredient_change }
    }
}

/// A spell that can be unlocked once, and cast like a learnt spell afterwards.
#[derive(Clone, Copy)]
pub struct UnlearntSpell {
    ingredient_change: [i32; 4],
    read_ahead_tax: i32,
    tax_gain: i32,
}

impl View for UnlearntSpell {
    type V = UnlearntSpellView;

    closed spec fn view(&self) -> UnlearntSpellView {
        UnlearntSpellView {
            delta: self.ingredient_change,
            read_ahead_tax: self.read_ahead_tax as int,
            tax_gain: self.tax_gain as int,
        }
    }
}

impl UnlearntSpell {
    /// The bonus that unlocking grants is a gain, never a loss.
    #[verifier::type_invariant]
    spec fn gain_not_negative(&self) -> bool {
        self.tax_gain >= 0
    }

    pub fn new(ingredient_change: [i32; 4], read_ahead_tax: i32, tax_gain: i32) -> (r: UnlearntSpell)
        requires
            tax_gain >= 0,
        ensures
            r@ == (UnlearntSpellView {
                delta: ingredient_change,
                read_ahead_tax: read_ahead_tax as int,
                tax_gain: tax_gain as int,
            }),
    {
        UnlearntSpell { ingredient_change, read_ahead_tax, tax_gain }
    }

    /// The tier-0 cost of unlocking the spell.
    pub fn get_read_ahead_tax(&self) -> (r: i32)
        ensures
            r == self@.read_ahead_tax,
    {
        self.read_ahead_tax
    }

    /// The tier-0 bonus granted when the spell is unlocked.
    pub fn get_tax_gain(&self) -> (r: i32)
        ensures
            r == self@.tax_gain,
            r >= 0,
    {
        proof {
            use_type_invariant(self);
        }
        self.tax_gain
    }
}

/// An order: paying its ingredients earns its price, once.
#[derive(Clone, Copy)]
pub struct Order {
    ingredient_change: [i32; 4],
    price: i32,
}

impl View for Order {
    type V = OrderView;

    closed spec fn view(&self) -> OrderView {
        OrderView { delta: self.ingredient_change, price: self.price as int }
    }
}

impl Order {
    pub fn new(price: i32, ingredient_change: [i32; 4]) -> (r: Order)
        ensures
            r@ == (OrderView { delta: ingredient_change, price: price as int }),
    {
        Order { price, ingredient_change }
    }

    pub fn get_delta(&self) -> (r: [i32; 4])
        ensures
            r == self@.delta,
    {
        self.ingredient_change
    }

    pub fn get_price(&self) -> (r: &i32)
        ensures
            *r == self@.price,
    {
        &self.price
    }
}

/// One of the four kinds of action, each with its own parameters.
#[derive(Clone, Copy)]
pub enum Action {
    Rest(Rest),
    Cast(LearntSpell),
    Learn(UnlearntSpell),
    Brew(Order),
}

impl View for Action {
    type V = ActionModel;

    open spec fn view(&self) -> ActionModel {
        match self {
            Action::Rest(_) => ActionModel::Rest,
            Action::Cast(s) => ActionModel::Cast(s@),
            Action::Learn(s) => ActionModel::Learn(s@),
            Action::Brew(o) => ActionModel::Brew(o@),
        }
    }
}

/// The category of a modelled action.
pub open spec fn type_of(a: ActionModel) -> ActionType {
    match a {
        ActionModel::Rest => ActionType::Rest,
        ActionModel::Cast(_) => ActionType::Cast,
        ActionModel::Learn(_) => ActionType::Learn,
        ActionModel::Brew(_) => ActionType::Brew,
    }
}

/// The fixed ingredient change that a modelled action carries.
pub open spec fn delta_of(a: ActionModel) -> [i32; 4] {
    match a {
        ActionModel::Rest => NO_INGREDIENT_CHANGE,
        ActionModel::Cast(d) => d,
        ActionModel::Learn(s) => s.delta,
        ActionModel::Brew(o) => o.delta,
    }
}

impl Action {
    pub fn get_ingredient_change(&self) -> (r: [i32; 4])
        ensures
            r == delta_of(self@),
    {
        match self {
            Action::Rest(_) => NO_INGREDIENT_CHANGE,
            Action::Cast(s) => s.ingredient_change,
            Action::Learn(s) => s.ingredient_change,
            Action::Brew(o) => o.ingredient_change,
        }
    }

    pub fn get_action_type(&self) -> (r: ActionType)
        ensures
            r == type_of(self@),
    {
        match self {
            Action::Rest(_) => ActionType::Rest,
            Action::Cast(_) => ActionType::Cast,
            Action::Learn(_) => ActionType::Learn,
            Action::Brew(_) => ActionType::Brew,
        }
    }

    pub fn is_rest(&self) -> (r: bool)
        ensures
            r == (self@ is Rest),
    {
        matches!(self, Action::Rest(_))
    }

    pub fn is_cast(&self) -> (r: bool)
        ensures
            r == (self@ is Cast),
    {
        matches!(self, Action::Cast(_))
    }

    pub fn is_brew(&self) -> (r: bool)
        ensures
            r == (self@ is Brew),
    {
        matches!(self, Action::Brew(_))
    }

    pub fn is_learn(&self) -> (r: bool)
        ensures
            r == (self@ is Learn),
    {
        matches!(self, Action::Learn(_))
    }
}

} // verus!
