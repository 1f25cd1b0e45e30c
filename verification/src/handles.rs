//! User-facing handle values.
//!
//! A handle stands for exactly one counted reference on an entity token and
//! on an (entity, intent) token.  Handles are created, duplicated and
//! released only through the server, which maintains the counts; the handle
//! itself is just the pair of identifiers it claims.

use vstd::prelude::*;

verus! {

/// A reference-counted claim on an entity under one intent.  While any handle
/// for the entity is outstanding, the entity must not be despawned; while any
/// handle for the (entity, intent) pair is outstanding, the intent's marker
/// must stay attached.
pub struct EntityHandle {
    entity: usize,
    intent: u64,
}

impl View for EntityHandle {
    type V = (usize, u64);

    closed spec fn view(&self) -> (usize, u64) {
        (self.entity, self.intent)
    }
}

impl EntityHandle {
    pub(crate) fn make(entity: usize, intent: u64) -> (h: EntityHandle)
        ensures
            h@ == (entity, intent),
    {
        EntityHandle { entity, intent }
    }

    /// The entity this handle holds alive.
    pub fn entity(&self) -> (e: usize)
        ensures
            e == self@.0,
    {
        self.entity
    }

    /// The marker component id of the intent this handle claims.
    pub fn intent_component(&self) -> (i: u64)
        ensures
            i == self@.1,
    {
        self.intent
    }
}

/// A handle additionally guaranteed, by construction, to refer to an entity
/// that carries the identity marker of an identity-keyed registry.  Only the
/// registry's own lookup path creates one.
pub struct EntityAssetHandle {
    handle: EntityHandle,
}

impl View for EntityAssetHandle {
    type V = (usize, u64);

    closed spec fn view(&self) -> (usize, u64) {
        self.handle@
    }
}

impl EntityAssetHandle {
    pub(crate) fn upcast(handle: EntityHandle) -> (h: EntityAssetHandle)
        ensures
            h@ == handle@,
    {
        EntityAssetHandle { handle }
    }

    /// The entity this handle holds alive.
    pub fn entity(&self) -> (e: usize)
        ensures
            e == self@.0,
    {
        self.handle.entity()
    }

    /// The marker component id of the intent this handle claims.
    pub fn intent_component(&self) -> (i: u64)
        ensures
            i == self@.1,
    {
        self.handle.intent_component()
    }
}

} // verus!
