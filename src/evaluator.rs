use vstd::prelude::*;

use crate::models::{Action, ActionModel, OrderView};
use crate::repository::ActionsRepository;
use crate::state::{State, StateView};
use crate::ActionId;

verus! {

/// Score per unit of price of an order already completed.
pub const COMPLETED_ORDER_WEIGHT: i128 = 1000;

/// Score per unit of price of an order that can be paid right now.
pub const AFFORDABLE_ORDER_WEIGHT: i128 = 3;

/// Score per rupee held.
pub const RUPEE_WEIGHT: i128 = 30;

/// Most orders the scorer adds up; keeps every score within 128 bits.
pub const MAX_SCORED_ORDERS: usize = 0xFFFF_FFFF;

/// How far an inventory is from paying an order: the sum of the shortfalls
/// of each tier, each at most zero; zero exactly when the order can be paid.
pub open spec fn order_distance(ing: [i32; 4], d: [i32; 4]) -> int {
    vstd::math::min(0, ing[0] + d[0]) + vstd::math::min(0, ing[1] + d[1]) + vstd::math::min(
        0,
        ing[2] + d[2],
    ) + vstd::math::min(0, ing[3] + d[3])
}

/// What one order adds to the score of a position: a large reward, grown by
/// the ingredients it consumed, once it is completed; otherwise a bonus when
/// it can be paid now and a penalty in proportion to its distance and its price.
pub open spec fn order_term(o: OrderView, completed: bool, ing: [i32; 4]) -> int {
    let d = o.delta;
    if completed {
        COMPLETED_ORDER_WEIGHT * o.price - 5 * d[0] - 10 * d[1] - 20 * d[2] - 30 * d[3]
    } else {
        let dist = order_distance(ing, d);
        (if dist >= 0 {
            AFFORDABLE_ORDER_WEIGHT * o.price
        } else {
            0
        }) + dist * o.price
    }
}

/// The sum of the terms of the orders listed in `ids`, in the position `s`.
pub open spec fn orders_score(
    repo: Map<ActionId, ActionModel>,
    ids: Seq<ActionId>,
    s: StateView,
) -> int
    decreases ids.len(),
{
    if ids.len() == 0 {
        0
    } else {
        let id = ids.last();
        orders_score(repo, ids.drop_last(), s) + if repo.contains_key(id) && repo[id] is Brew {
            order_term(repo[id]->Brew_0, s.inactive_orders.contains(id.0), s.ingredients)
        } else {
            0
        }
    }
}

/// The default heuristic score of a position: the terms of every order of
/// the repository, plus the rupees held.
pub open spec fn default_score(repo: &ActionsRepository, s: StateView) -> int {
    orders_score(repo@, repo.spec_order_ids(), s) + RUPEE_WEIGHT * s.rupees
}

/// An order whose ingredients fit in the storage: it consumes and never
/// produces, and consumes no more than the capacity in total.
pub open spec fn payable_order(o: OrderView) -> bool {
    let d = o.delta;
    &&& -10 <= d[0] <= 0 && -10 <= d[1] <= 0 && -10 <= d[2] <= 0 && -10 <= d[3] <= 0
    &&& -(d[0] + d[1] + d[2] + d[3]) <= crate::MAX_INGREDIENT_COUNT
}

/// With two payable orders worth 10 and 30 as the only orders, a position
/// where only the order worth 30 is completed scores strictly higher than any
/// position where only the order worth 10 is completed, whatever the two
/// inventories hold, as long as the rupees held are the same.
pub proof fn lemma_completed_order_dominates(
    repo: &ActionsRepository,
    low: ActionId,
    high: ActionId,
    only_high: StateView,
    only_low: StateView,
)
    requires
        repo.spec_order_ids() == seq![low, high],
        repo@.contains_key(low),
        repo@.contains_key(high),
        repo@[low] is Brew,
        repo@[high] is Brew,
        (repo@[low]->Brew_0).price == 10,
        (repo@[high]->Brew_0).price == 30,
        payable_order(repo@[low]->Brew_0),
        payable_order(repo@[high]->Brew_0),
        low.0 != high.0,
        only_high.wf(),
        only_low.wf(),
        only_high.rupees == only_low.rupees,
        only_high.inactive_orders.contains(high.0),
        !only_high.inactive_orders.contains(low.0),
        only_low.inactive_orders.contains(low.0),
        !only_low.inactive_orders.contains(high.0),
    ensures
        default_score(repo, only_high) > default_score(repo, only_low),
{
    let ids = repo.spec_order_ids();
    let m = repo@;
    assert(ids.drop_last() =~= seq![low]);
    assert(ids.drop_last().drop_last() =~= Seq::<ActionId>::empty());
    let lo = m[low]->Brew_0;
    let hi = m[high]->Brew_0;
    let h_ing = only_high.ingredients;
    let l_ing = only_low.ingredients;
    assert(orders_score(m, Seq::<ActionId>::empty(), only_high) == 0);
    assert(orders_score(m, seq![low], only_high) == order_term(lo, false, h_ing));
    assert(orders_score(m, Seq::<ActionId>::empty(), only_low) == 0);
    assert(orders_score(m, seq![low], only_low) == order_term(lo, true, l_ing));
    // The order worth 10 is at most 10 ingredients away in the first position.
    assert(order_distance(h_ing, lo.delta) >= lo.delta[0] + lo.delta[1] + lo.delta[2]
        + lo.delta[3]);
    assert(orders_score(m, ids, only_high) == order_term(lo, false, h_ing) + order_term(
        hi,
        true,
        h_ing,
    ));
    assert(orders_score(m, ids, only_low) == order_term(lo, true, l_ing) + order_term(
        hi,
        false,
        l_ing,
    ));
    assert(order_term(hi, true, h_ing) >= 30000);
    assert(order_term(lo, false, h_ing) >= -100);
    assert(order_term(lo, true, l_ing) <= 10300);
    assert(order_term(hi, false, l_ing) <= 90);
}

/// Scores a position for the search.
pub trait StateEvaluator {
    /// The score given to a position.
    spec fn spec_evaluate(&self, state: StateView, repo: &ActionsRepository) -> int;

    fn evaluate(&self, state: &State, repo: &ActionsRepository) -> (r: i128)
        requires
            repo.wf(),
            state@.wf(),
            repo.spec_order_ids().len() <= MAX_SCORED_ORDERS,
        ensures
            r == self.spec_evaluate(state@, repo),
    ;
}

/// Scores positions by how close they are to completing valuable orders.
pub struct DefaultStateEvaluator;

impl DefaultStateEvaluator {
    pub fn new() -> (r: DefaultStateEvaluator) {
        DefaultStateEvaluator {}
    }
}

proof fn lemma_distance_times_price(dist: int, price: int)
    requires
        -0x2_0000_0000 <= dist <= 0,
        -0x8000_0000 <= price < 0x8000_0000,
    ensures
        -0x1_0000_0000_0000_0000 <= dist * price <= 0x1_0000_0000_0000_0000,
{
    assert(-0x1_0000_0000_0000_0000 <= dist * price <= 0x1_0000_0000_0000_0000)
        by (nonlinear_arith)
        requires
            -0x2_0000_0000 <= dist <= 0,
            -0x8000_0000 <= price < 0x8000_0000,
    ;
}

/// How many ingredients of one tier are missing to pay `need` from `have`, as
/// a count at most zero.
fn shortfall(have: i32, need: i32) -> (r: i128)
    ensures
        r == vstd::math::min(0, have + need),
{
    let s = have as i128 + need as i128;
    if s < 0 {
        s
    } else {
        0
    }
}

/// The term of one order, computed.
fn compute_order_term(o: Ghost<OrderView>, delta: [i32; 4], price: i32, completed: bool, ing: [i32; 4]) -> (r: i128)
    requires
        o@.delta == delta,
        o@.price == price,
        0 <= ing[0] <= 10 && 0 <= ing[1] <= 10 && 0 <= ing[2] <= 10 && 0 <= ing[3] <= 10,
    ensures
        r == order_term(o@, completed, ing),
        -0x2_0000_0000_0000_0000 <= r <= 0x2_0000_0000_0000_0000,
{
    let p = price as i128;
    if completed {
        COMPLETED_ORDER_WEIGHT * p - 5 * delta[0] as i128 - 10 * delta[1] as i128 - 20
            * delta[2] as i128 - 30 * delta[3] as i128
    } else {
        let dist = shortfall(ing[0], delta[0]) + shortfall(ing[1], delta[1]) + shortfall(
            ing[2],
            delta[2],
        ) + shortfall(ing[3], delta[3]);
        proof {
            lemma_distance_times_price(dist as int, p as int);
        }
        let bonus: i128 = if dist >= 0 {
            AFFORDABLE_ORDER_WEIGHT * p
        } else {
            0
        };
        bonus + dist * p
    }
}

impl StateEvaluator for DefaultStateEvaluator {
    open spec fn spec_evaluate(&self, state: StateView, repo: &ActionsRepository) -> int {
        default_score(repo, state)
    }

    fn evaluate(&self, state: &State, repo: &ActionsRepository) -> (r: i128) {
        let ingredients = *state.get_ingredients();
        let completed = state.get_inactive_orders();
        let order_ids = repo.get_order_ids();
        let ghost ids = repo.spec_order_ids();
        let mut score: i128 = 0;
        let mut i: usize = 0;
        while i < order_ids.len()
            invariant
                order_ids@ == ids,
                ids == repo.spec_order_ids(),
                ids.len() <= MAX_SCORED_ORDERS,
                repo.wf(),
                state@.wf(),
                ingredients == state@.ingredients,
                completed@ == state@.inactive_orders,
                i <= ids.len(),
                score == orders_score(repo@, ids.subrange(0, i as int), state@),
                -0x2_0000_0000_0000_0000 * i <= score <= 0x2_0000_0000_0000_0000 * i,
            decreases ids.len() - i,
        {
            let id = &order_ids[i];
            let ghost prefix = ids.subrange(0, i + 1);
            assert(prefix.drop_last() =~= ids.subrange(0, i as int));
            assert(prefix.last() == *id);
            match repo.get_action(id) {
                Some(Action::Brew(order)) => {
                    let o = *order;
                    let term = compute_order_term(
                        Ghost(o@),
                        o.get_delta(),
                        *o.get_price(),
                        completed.contains(id.0),
                        ingredients,
                    );
                    score = score + term;
                },
                _ => {},
            }
            i = i + 1;
        }
        assert(ids.subrange(0, ids.len() as int) =~= ids);
        score + RUPEE_WEIGHT * (*state.get_rupees() as i128)
    }
}

/// Scores positions by the rupees held alone.
pub struct RandomStateEvaluator;

impl RandomStateEvaluator {
    pub fn new() -> (r: RandomStateEvaluator) {
        RandomStateEvaluator {}
    }
}

impl StateEvaluator for RandomStateEvaluator {
    open spec fn spec_evaluate(&self, state: StateView, repo: &ActionsRepository) -> int {
        state.rupees
    }

    fn evaluate(&self, state: &State, repo: &ActionsRepository) -> (r: i128) {
        *state.get_rupees() as i128
    }
}

} // verus!
