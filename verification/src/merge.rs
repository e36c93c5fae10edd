//! A model of the downstream store's merge behaviour, just rich enough to
//! state that every command this library emits is safe to replay.
//!
//! The store itself lives downstream and is not implemented here; the model
//! gives set-valued entries and scalar entries keyed by the full store key.

use vstd::prelude::*;

use crate::commands::CommandView;

verus! {

/// Model of the projection store: the set-valued collection entries and the
/// scalar entries, each keyed by the full store key.
#[verifier::ext_equal]
pub ghost struct StoreModel {
    pub sets: Map<Seq<char>, Set<Seq<char>>>,
    pub scalars: Map<Seq<char>, Seq<char>>,
}

/// The set stored at `key`: empty while the key is absent.
pub open spec fn set_at(store: StoreModel, key: Seq<char>) -> Set<Seq<char>> {
    if store.sets.contains_key(key) {
        store.sets[key]
    } else {
        Set::empty()
    }
}

/// Applying one command to the store model: set-add inserts the member into
/// the set at the key, set-remove removes it, and any-write-wins overwrites
/// the scalar at the key.
pub open spec fn spec_apply(store: StoreModel, cmd: CommandView) -> StoreModel {
    match cmd {
        CommandView::SetAdd(key, member) => StoreModel {
            sets: store.sets.insert(key, set_at(store, key).insert(member)),
            scalars: store.scalars,
        },
        CommandView::SetRemove(key, member) => StoreModel {
            sets: store.sets.insert(key, set_at(store, key).remove(member)),
            scalars: store.scalars,
        },
        CommandView::AnyWriteWins(key, value) => StoreModel {
            sets: store.sets,
            scalars: store.scalars.insert(key, value),
        },
    }
}

/// Replay safety: applying the same command twice leaves the store exactly
/// as applying it once does, for every store and every command.
pub proof fn lemma_apply_idempotent(store: StoreModel, cmd: CommandView)
    ensures
        spec_apply(spec_apply(store, cmd), cmd) == spec_apply(store, cmd),
{
    let once = spec_apply(store, cmd);
    let twice = spec_apply(once, cmd);
    match cmd {
        CommandView::SetAdd(key, member) => {
            assert(set_at(once, key) =~= set_at(store, key).insert(member));
            assert(set_at(once, key).insert(member) =~= set_at(store, key).insert(member));
            assert(twice.sets =~~= once.sets);
            assert(twice =~~= once);
        },
        CommandView::SetRemove(key, member) => {
            assert(set_at(once, key) =~= set_at(store, key).remove(member));
            assert(set_at(once, key).remove(member) =~= set_at(store, key).remove(member));
            assert(twice.sets =~~= once.sets);
            assert(twice =~~= once);
        },
        CommandView::AnyWriteWins(key, value) => {
            assert(twice.scalars =~= once.scalars);
            assert(twice =~~= once);
        },
    }
}

} // verus!
