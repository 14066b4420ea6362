//! The commands of the verbs that run over many keys. All of them are planned
//! before the first one is sent.

use vstd::prelude::*;

use super::error::{Error, ErrorView};
use super::meta_api::SetMode;
use super::meta_command::{MetaCommand, MetaCommandView};
use super::scenario;
use super::scenario::{encode_value, plan_erase_at, plan_get_at, plan_store_at};
use super::ttl::Ttl;
use super::value::Encode;
use crate::bytes;
use crate::time::SystemTime;

verus! {

/// A command, or why it cannot be planned.
pub type Plan = Result<MetaCommandView, ErrorView>;

/// The reason of the first command that cannot be planned, if there is one.
pub open spec fn first_refusal(plans: Seq<Plan>) -> Option<ErrorView>
    decreases plans.len(),
{
    if plans.len() == 0 {
        None
    } else {
        match first_refusal(plans.drop_last()) {
            Some(e) => Some(e),
            None => match plans.last() {
                Ok(_) => None,
                Err(e) => Some(e),
            },
        }
    }
}

proof fn lemma_refusal_stays(plans: Seq<Plan>, k: int)
    requires
        0 <= k <= plans.len(),
        first_refusal(plans.take(k)) is Some,
    ensures
        first_refusal(plans) == first_refusal(plans.take(k)),
    decreases plans.len() - k,
{
    if k < plans.len() {
        assert(plans.take(k + 1).drop_last() =~= plans.take(k));
        lemma_refusal_stays(plans, k + 1);
    } else {
        assert(plans.take(k) =~= plans);
    }
}

/// Whether entries pair each key with the command that is planned for it.
pub open spec fn pairs_up(entries: Seq<(Vec<u8>, MetaCommand)>, keys: Seq<Seq<u8>>, plans: Seq<Plan>) -> bool {
    &&& entries.len() == keys.len()
    &&& plans.len() == keys.len()
    &&& forall|i: int|
        0 <= i < entries.len() ==> (#[trigger] entries[i]).0@ == keys[i] && plans[i] == Ok::<
            MetaCommandView,
            ErrorView,
        >(entries[i].1@)
}

/// Whether `r` is what planning a command for each key gives: all of them, or
/// the first refusal.
pub open spec fn planned(
    r: Result<Vec<(Vec<u8>, MetaCommand)>, Error>,
    keys: Seq<Seq<u8>>,
    plans: Seq<Plan>,
) -> bool {
    match r {
        Ok(entries) => first_refusal(plans) is None && pairs_up(entries@, keys, plans),
        Err(e) => first_refusal(plans) == Some(e@),
    }
}

/// Add the plan of the next key, or fail with its refusal.
fn append_plan(
    entries: &mut Vec<(Vec<u8>, MetaCommand)>,
    key: &[u8],
    plan: Result<MetaCommand, Error>,
    Ghost(keys): Ghost<Seq<Seq<u8>>>,
    Ghost(plans): Ghost<Seq<Plan>>,
) -> (r: Result<(), Error>)
    requires
        old(entries)@.len() < keys.len(),
        plans.len() == keys.len(),
        key@ == keys[old(entries)@.len() as int],
        match plan {
            Ok(command) => plans[old(entries)@.len() as int] == Ok::<MetaCommandView, ErrorView>(command@),
            Err(e) => plans[old(entries)@.len() as int] == Err::<MetaCommandView, ErrorView>(e@),
        },
        first_refusal(plans.take(old(entries)@.len() as int)) is None,
        pairs_up(old(entries)@, keys.take(old(entries)@.len() as int), plans.take(old(entries)@.len() as int)),
    ensures
        match r {
            Ok(_) => {
                let n = final(entries)@.len() as int;
                &&& n == old(entries)@.len() + 1
                &&& first_refusal(plans.take(n)) is None
                &&& pairs_up(final(entries)@, keys.take(n), plans.take(n))
            },
            Err(e) => first_refusal(plans) == Some(e@),
        },
{
    let ghost n = entries@.len() as int;
    let ghost before = entries@;
    proof {
        assert(plans.take(n + 1).drop_last() =~= plans.take(n));
        assert(plans.take(n + 1).last() == plans[n]);
    }
    match plan {
        Ok(command) => {
            entries.push((bytes::copy(key), command));
            proof {
                assert forall|i: int| 0 <= i < entries@.len() implies (#[trigger] entries@[i]).0@ == keys.take(
                    n + 1,
                )[i] && plans.take(n + 1)[i] == Ok::<MetaCommandView, ErrorView>(entries@[i].1@) by {
                    if i < n {
                        assert(entries@[i] == before[i]);
                        assert(keys.take(n)[i] == keys[i] && plans.take(n)[i] == plans[i]);
                    }
                }
            }
            Ok(())
        },
        Err(e) => {
            proof {
                lemma_refusal_stays(plans, n + 1);
            }
            Err(e)
        },
    }
}

/// What is planned for each key of `get_many`.
pub open spec fn get_plans(keys: Seq<Seq<u8>>, now: SystemTime) -> Seq<Plan> {
    Seq::new(keys.len(), |i: int| scenario::get_plan(keys[i], None, now))
}

/// Plan the reads of `get_many`.
pub fn plan_get_many_at(keys: &Vec<Vec<u8>>, now: SystemTime) -> (r: Result<Vec<(Vec<u8>, MetaCommand)>, Error>)
    ensures
        planned(r, bytes::views(keys@), get_plans(bytes::views(keys@), now)),
{
    let ghost all = bytes::views(keys@);
    let ghost plans = get_plans(all, now);
    let mut entries: Vec<(Vec<u8>, MetaCommand)> = Vec::new();
    while entries.len() < keys.len()
        invariant
            entries@.len() <= keys@.len(),
            all == bytes::views(keys@),
            plans == get_plans(all, now),
            first_refusal(plans.take(entries@.len() as int)) is None,
            pairs_up(entries@, all.take(entries@.len() as int), plans.take(entries@.len() as int)),
        decreases keys@.len() - entries@.len(),
    {
        let key = keys[entries.len()].as_slice();
        let plan = plan_get_at(key, None, now);
        match append_plan(&mut entries, key, plan, Ghost(all), Ghost(plans)) {
            Ok(_) => {},
            Err(e) => {
                return Err(e);
            },
        }
    }
    proof {
        assert(all.take(entries@.len() as int) =~= all);
        assert(plans.take(entries@.len() as int) =~= plans);
    }
    Ok(entries)
}

/// What is planned for each key of `delete_many`.
pub open spec fn delete_plans(keys: Seq<Seq<u8>>, now: SystemTime) -> Seq<Plan> {
    Seq::new(keys.len(), |i: int| scenario::erase_plan(keys[i], None, None, now))
}

/// Plan the deletes of `delete_many`.
pub fn plan_delete_many_at(keys: &Vec<Vec<u8>>, now: SystemTime) -> (r: Result<Vec<(Vec<u8>, MetaCommand)>, Error>)
    ensures
        planned(r, bytes::views(keys@), delete_plans(bytes::views(keys@), now)),
{
    let ghost all = bytes::views(keys@);
    let ghost plans = delete_plans(all, now);
    let mut entries: Vec<(Vec<u8>, MetaCommand)> = Vec::new();
    while entries.len() < keys.len()
        invariant
            entries@.len() <= keys@.len(),
            all == bytes::views(keys@),
            plans == delete_plans(all, now),
            first_refusal(plans.take(entries@.len() as int)) is None,
            pairs_up(entries@, all.take(entries@.len() as int), plans.take(entries@.len() as int)),
        decreases keys@.len() - entries@.len(),
    {
        let key = keys[entries.len()].as_slice();
        let plan = plan_erase_at(key, None, None, now);
        match append_plan(&mut entries, key, plan, Ghost(all), Ghost(plans)) {
            Ok(_) => {},
            Err(e) => {
                return Err(e);
            },
        }
    }
    proof {
        assert(all.take(entries@.len() as int) =~= all);
        assert(plans.take(entries@.len() as int) =~= plans);
    }
    Ok(entries)
}

/// The keys of pairs.
pub open spec fn pair_keys<V>(pairs: Seq<(Vec<u8>, V)>) -> Seq<Seq<u8>> {
    Seq::new(pairs.len(), |i: int| pairs[i].0@)
}

/// What is planned for each pair of `set_many`. A value that cannot be stored
/// is refused before its lifetime is looked at.
pub open spec fn set_plans<V: Encode>(pairs: Seq<(Vec<u8>, V)>, ttl: Ttl, now: SystemTime) -> Seq<Plan> {
    Seq::new(
        pairs.len(),
        |i: int|
            match scenario::value_encoding(&pairs[i].1) {
                Err(e) => Err(e),
                Ok(encoded) => scenario::store_plan(pairs[i].0@, encoded, ttl, SetMode::Store, None, now),
            },
    )
}

/// Plan the writes of `set_many`. Every value is encoded before anything is
/// written.
pub fn plan_set_many_at<V: Encode>(pairs: &Vec<(Vec<u8>, V)>, ttl: Ttl, now: SystemTime) -> (r: Result<
    Vec<(Vec<u8>, MetaCommand)>,
    Error,
>)
    ensures
        planned(r, pair_keys(pairs@), set_plans(pairs@, ttl, now)),
{
    let ghost all = pair_keys(pairs@);
    let ghost plans = set_plans(pairs@, ttl, now);
    let mut entries: Vec<(Vec<u8>, MetaCommand)> = Vec::new();
    while entries.len() < pairs.len()
        invariant
            entries@.len() <= pairs@.len(),
            all == pair_keys(pairs@),
            plans == set_plans(pairs@, ttl, now),
            first_refusal(plans.take(entries@.len() as int)) is None,
            pairs_up(entries@, all.take(entries@.len() as int), plans.take(entries@.len() as int)),
        decreases pairs@.len() - entries@.len(),
    {
        let pair = &pairs[entries.len()];
        let plan = match encode_value(&pair.1) {
            Ok(encoded) => plan_store_at(pair.0.as_slice(), &encoded, ttl, SetMode::Store, None, now),
            Err(e) => Err(e),
        };
        match append_plan(&mut entries, pair.0.as_slice(), plan, Ghost(all), Ghost(plans)) {
            Ok(_) => {},
            Err(e) => {
                return Err(e);
            },
        }
    }
    proof {
        assert(all.take(entries@.len() as int) =~= all);
        assert(plans.take(entries@.len() as int) =~= plans);
    }
    Ok(entries)
}

} // verus!
