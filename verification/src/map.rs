//! Adding objects to a concurrent map, as provided by the `lockfree` crate:
//! insert if the key is absent, else let a factory decide on an update.

use crate::counter::CountedObject;
use crate::error::AdnlError;
use std::hash::Hash;
use vstd::prelude::*;

verus! {

#[verifier::external_type_specification]
#[verifier::external_body]
#[verifier::reject_recursive_types(K)]
#[verifier::reject_recursive_types(V)]
#[verifier::reject_recursive_types(H)]
pub struct ExLockfreeMap<K, V, H>(lockfree::map::Map<K, V, H>);

/// What to do with an insertion, as told to the map each time it asks.
pub enum Decision<V> {
    /// Drop the value generated so far; the insertion fails unless the map
    /// asks again.
    Discard,
    /// Keep the value generated so far.
    Keep,
    /// Use this value.
    New(V),
}

/// How an insertion ended.
#[derive(Debug, Clone, Copy, PartialEq, Eq)]
pub enum Insertion {
    /// The key was absent and an entry was made.
    Created,
    /// The key was present and its entry was replaced.
    Updated,
    /// The map is as it was.
    Failed,
}

/// True when the factory is not asked: no entry is found, and a value was
/// generated already.
pub open spec fn keeps_generated<V>(generated: bool, found: Option<&V>) -> bool {
    found is None && generated
}

/// Decides on one round of an insertion.  The factory is asked unless a
/// value was generated and no entry is found; a value it gives is used; no
/// value, or a failure, discards the insertion, and the failure is noted.
pub fn decide<V, F: FnMut(Option<&V>) -> Result<Option<V>, AdnlError>>(
    generated: bool,
    found: Option<&V>,
    factory: &mut F,
    error: &mut Option<AdnlError>,
) -> (decision: Decision<V>)
    requires
        call_requires(*old(factory), (found,)),
    ensures
        match decision {
            Decision::Keep => keeps_generated(generated, found) && *final(error) == *old(error),
            Decision::New(value) => !keeps_generated(generated, found) && call_ensures(
                *old(factory),
                (found,),
                Ok(Some(value)),
            ) && *final(error) == *old(error),
            Decision::Discard => !keeps_generated(generated, found) && (match *final(error) {
                Some(e) => call_ensures(*old(factory), (found,), Err(e)) || (*final(error) == *old(error)
                    && call_ensures(*old(factory), (found,), Ok(None))),
                None => *old(error) is None && call_ensures(*old(factory), (found,), Ok(None)),
            }),
        },
{
    if found.is_none() && generated {
        return Decision::Keep;
    }
    match factory(found) {
        Err(err) => {
            *error = Some(err);
        },
        Ok(Some(value)) => {
            return Decision::New(value);
        },
        Ok(None) => {},
    }
    Decision::Discard
}

/// What the caller of an insertion is told: that an entry was made or
/// replaced, that nothing was done, or the failure noted on the way.
pub open spec fn reported(kind: Insertion, error: Option<AdnlError>) -> Result<bool, AdnlError> {
    match kind {
        Insertion::Created => Ok(true),
        Insertion::Updated => Ok(true),
        Insertion::Failed => match error {
            Some(e) => Err(e),
            None => Ok(false),
        },
    }
}

/// True when the factory may give `made` for some entry found, or for none.
pub open spec fn factory_gives<V, F: FnMut(Option<&V>) -> Result<Option<V>, AdnlError>>(
    factory: F,
    made: Result<Option<V>, AdnlError>,
) -> bool {
    exists|found: Option<&V>| #[trigger] call_ensures(factory, (found,), made)
}

/// What an insertion may report, given its factory: a change only with a
/// value that the factory gave; no change only where the factory gave none;
/// a failure only where it is the factory's.
pub open spec fn insertion_post<V, F: FnMut(Option<&V>) -> Result<Option<V>, AdnlError>>(
    factory: F,
    result: Result<bool, AdnlError>,
) -> bool {
    match result {
        Ok(true) => exists|value: V| #[trigger] factory_gives(factory, Ok(Some(value))),
        Ok(false) => factory_gives(factory, Ok(None)),
        Err(e) => factory_gives(factory, Err(e)),
    }
}

/// What making an entry only where none is found gives: nothing for an
/// entry that is there, else what the factory makes.
pub open spec fn creation<V, F: Fn() -> Result<V, AdnlError>>(
    factory: F,
    found: bool,
    made: Result<Option<V>, AdnlError>,
) -> bool {
    if found {
        made == Ok::<Option<V>, AdnlError>(None)
    } else {
        match made {
            Ok(Some(value)) => call_ensures(factory, (), Ok(value)),
            Ok(None) => false,
            Err(e) => call_ensures(factory, (), Err(e)),
        }
    }
}

/// What an insertion that never replaces may report: an entry made only
/// with a value of the factory, and a failure only where it is the
/// factory's.
pub open spec fn creation_post<V, F: Fn() -> Result<V, AdnlError>>(factory: F, result: Result<bool, AdnlError>) -> bool {
    match result {
        Ok(true) => exists|value: V| #[trigger] call_ensures(factory, (), Ok(value)),
        Ok(false) => true,
        Err(e) => call_ensures(factory, (), Err(e)),
    }
}

/// What the caller of an insertion is told: that an entry was made or
/// replaced, that nothing was done, or the failure noted on the way.
pub fn insertion_result(kind: Insertion, error: Option<AdnlError>) -> (result: Result<bool, AdnlError>)
    ensures
        result == reported(kind, error),
{
    match kind {
        Insertion::Created => Ok(true),
        Insertion::Failed => if let Some(error) = error {
            Err(error)
        } else {
            Ok(false)
        },
        Insertion::Updated => Ok(true),
    }
}

/// Calls `lockfree::map::Map::insert_with` with a closure that asks `decide`
/// each time the map asks, and reports how the insertion ended with the
/// failure noted, if any.  Other tasks may change the map meanwhile, so
/// nothing is claimed of the map.  Of the outcome the contract claims what
/// the crate's source shows: each outcome follows a call of the closure; the
/// insertion fails when that call discarded, and at once; it creates or
/// replaces only with a value that a call of the closure gave.  What such a
/// call gives is what `decide` ensures: a value that the factory gave, or a
/// discard where the factory gave none or failed, its failure noted.
#[verifier::external_body]
fn insert_with<K: Hash + Ord, V, F: FnMut(Option<&V>) -> Result<Option<V>, AdnlError>>(
    to: &lockfree::map::Map<K, V>,
    key: K,
    factory: &mut F,
) -> (outcome: (Insertion, Option<AdnlError>))
    requires
        forall|found: Option<&V>| call_requires(*old(factory), (found,)),
    ensures
        insertion_post(*old(factory), reported(outcome.0, outcome.1)),
{
    let mut error = None;
    let insertion = to.insert_with(key, |_, generated, found| {
        match decide(generated.is_some(), found.map(|pair| &pair.1), factory, &mut error) {
            Decision::Discard => lockfree::map::Preview::Discard,
            Decision::Keep => lockfree::map::Preview::Keep,
            Decision::New(value) => lockfree::map::Preview::New(value),
        }
    });
    let kind = match insertion {
        lockfree::map::Insertion::Created => Insertion::Created,
        lockfree::map::Insertion::Updated(_) => Insertion::Updated,
        lockfree::map::Insertion::Failed(_) => Insertion::Failed,
    };
    (kind, error)
}

/// Add counted object to map: makes an entry with what the factory gives
/// if the key is absent, and leaves an entry that is there alone.
pub fn add_counted_object_to_map<K: Hash + Ord, V: CountedObject, F: Fn() -> Result<V, AdnlError>>(
    to: &lockfree::map::Map<K, V>,
    key: K,
    factory: F,
) -> (added: Result<bool, AdnlError>)
    requires
        call_requires(factory, ()),
    ensures
        creation_post(factory, added),
{
    add_unbound_object_to_map(to, key, factory)
}

/// Add or update counted object in map: the factory sees the entry that is
/// there, if any, and gives the value to store, or none to leave the map as
/// it is.
pub fn add_counted_object_to_map_with_update<
    K: Hash + Ord,
    V: CountedObject,
    F: FnMut(Option<&V>) -> Result<Option<V>, AdnlError>,
>(to: &lockfree::map::Map<K, V>, key: K, factory: F) -> (added: Result<bool, AdnlError>)
    requires
        forall|found: Option<&V>| call_requires(factory, (found,)),
    ensures
        insertion_post(factory, added),
{
    add_unbound_object_to_map_with_update(to, key, factory)
}

/// Add unbound object to map: makes an entry with what the factory gives
/// if the key is absent, and leaves an entry that is there alone.
pub fn add_unbound_object_to_map<K: Hash + Ord, V, F: Fn() -> Result<V, AdnlError>>(
    to: &lockfree::map::Map<K, V>,
    key: K,
    factory: F,
) -> (added: Result<bool, AdnlError>)
    requires
        call_requires(factory, ()),
    ensures
        creation_post(factory, added),
{
    let create = &factory;
    let create_if_absent = |found: Option<&V>| -> (made: Result<Option<V>, AdnlError>)
        ensures
            creation(*create, found is Some, made),
        {
            if found.is_some() {
                Ok(None)
            } else {
                match create() {
                    Ok(value) => Ok(Some(value)),
                    Err(e) => Err(e),
                }
            }
        };
    add_unbound_object_to_map_with_update(to, key, create_if_absent)
}

/// Add or update unbound object in map: the factory sees the entry that is
/// there, if any, and gives the value to store, or none to leave the map as
/// it is.
pub fn add_unbound_object_to_map_with_update<
    K: Hash + Ord,
    V,
    F: FnMut(Option<&V>) -> Result<Option<V>, AdnlError>,
>(to: &lockfree::map::Map<K, V>, key: K, factory: F) -> (added: Result<bool, AdnlError>)
    requires
        forall|found: Option<&V>| call_requires(factory, (found,)),
    ensures
        insertion_post(factory, added),
{
    let mut factory = factory;
    let (kind, error) = insert_with(to, key, &mut factory);
    insertion_result(kind, error)
}

} // verus!
