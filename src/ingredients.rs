use vstd::prelude::*;

use crate::MAX_INGREDIENT_COUNT;

verus! {

/// Total count of ingredients in an inventory.
pub open spec fn tier_sum(a: [i32; 4]) -> int {
    a[0] + a[1] + a[2] + a[3]
}

/// An inventory respects the storage rules: no tier below zero, and the
/// total within capacity.
pub open spec fn valid_inventory(a: [i32; 4]) -> bool {
    &&& 0 <= a[0]
    &&& 0 <= a[1]
    &&& 0 <= a[2]
    &&& 0 <= a[3]
    &&& tier_sum(a) <= MAX_INGREDIENT_COUNT
}

/// Applying `delta` to `money` leaves an inventory that respects the storage rules.
pub open spec fn affordable(delta: [i32; 4], money: [i32; 4]) -> bool {
    &&& money[0] + delta[0] >= 0
    &&& money[1] + delta[1] >= 0
    &&& money[2] + delta[2] >= 0
    &&& money[3] + delta[3] >= 0
    &&& tier_sum(money) + tier_sum(delta) <= MAX_INGREDIENT_COUNT
}

/// Applies an ingredient change to an inventory: the resulting inventory
/// when no tier goes negative and the total stays within capacity.
pub fn pay(cost: &[i32; 4], money: &[i32; 4]) -> (r: Option<[i32; 4]>)
    ensures
        r.is_some() == affordable(*cost, *money),
        r.is_some() ==> {
            let n = r.unwrap();
            &&& n[0] == money[0] + cost[0]
            &&& n[1] == money[1] + cost[1]
            &&& n[2] == money[2] + cost[2]
            &&& n[3] == money[3] + cost[3]
            &&& valid_inventory(n)
        },
{
    let r0: i64 = money[0] as i64 + cost[0] as i64;
    let r1: i64 = money[1] as i64 + cost[1] as i64;
    let r2: i64 = money[2] as i64 + cost[2] as i64;
    let r3: i64 = money[3] as i64 + cost[3] as i64;
    if r0 < 0 || r1 < 0 || r2 < 0 || r3 < 0 {
        return None;
    }
    if r0 + r1 + r2 + r3 > MAX_INGREDIENT_COUNT as i64 {
        return None;
    }
    let r = [r0 as i32, r1 as i32, r2 as i32, r3 as i32];
    Some(r)
}

} // verus!
