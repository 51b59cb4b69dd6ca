use crate::primitives::AccountId;
use std::collections::HashMap;
use vstd::prelude::*;

verus! {

broadcast use vstd::std_specs::hash::group_hash_axioms;

/// The controllers of `validators`, in their order, looked up in the staking pallet's
/// map from stashes to controllers. Every validator is bonded; the chain panics otherwise.
pub fn validator_controllers(validators: &Vec<AccountId>, bonded: &HashMap<AccountId, AccountId>) -> (controllers: Vec<AccountId>)
    requires
        forall|i: int| 0 <= i < validators@.len() ==> bonded@.contains_key(#[trigger] validators@[i]),
    ensures
        controllers@ == validators@.map_values(|v: AccountId| bonded@[v]),
{
    let mut controllers: Vec<AccountId> = Vec::new();
    for i in 0..validators.len()
        invariant
            forall|i: int| 0 <= i < validators@.len() ==> bonded@.contains_key(#[trigger] validators@[i]),
            controllers@ == validators@.take(i as int).map_values(|v: AccountId| bonded@[v]),
    {
        let stash = validators[i];
        assert(bonded@.contains_key(validators@[i as int]));
        let controller = *bonded.get(&stash).unwrap();
        controllers.push(controller);
        assert(controllers@ =~= validators@.take(i + 1).map_values(|v: AccountId| bonded@[v]));
    }
    assert(validators@.take(validators.len() as int) =~= validators@);
    controllers
}

} // verus!
