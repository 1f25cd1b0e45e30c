//! Marker component wrappers.
//!
//! A marker carries no data of its own: it is the presence of a component id
//! on an entity.  These wrappers name the two kinds the library attaches —
//! identity markers, which tag entities owned by an identity-keyed registry,
//! and intent markers, which tag an active claim under one intent.

use vstd::prelude::*;

verus! {

/// Identity marker: tags an entity as registered under an identity key type.
pub struct IdMarker {
    component: u64,
}

impl View for IdMarker {
    type V = u64;

    closed spec fn view(&self) -> u64 {
        self.component
    }
}

impl IdMarker {
    /// Wrap the component id an identity registry marks its entities with.
    pub fn new(component: u64) -> (m: IdMarker)
        ensures
            m@ == component,
    {
        IdMarker { component }
    }

    /// The marker's component id.
    pub fn component(&self) -> (c: u64)
        ensures
            c == self@,
    {
        self.component
    }
}

/// Intent marker: tags an active claim on an entity under one intent.  It is
/// the primary integration point for external systems, which query for it.
pub struct IntentMarker {
    component: u64,
}

impl View for IntentMarker {
    type V = u64;

    closed spec fn view(&self) -> u64 {
        self.component
    }
}

impl IntentMarker {
    /// Wrap the component id registered for an intent.
    pub fn new(component: u64) -> (m: IntentMarker)
        ensures
            m@ == component,
    {
        IntentMarker { component }
    }

    /// The marker's component id.
    pub fn component(&self) -> (c: u64)
        ensures
            c == self@,
    {
        self.component
    }
}

} // verus!
