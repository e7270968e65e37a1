//! An in-memory todo-list view-model.
//!
//! The library holds the application state (a list of todo items, a draft
//! input buffer, a filter mode and an id counter), the operations that
//! mutate it, and the derived values a view renders. Every operation is
//! total: bad input (a blank draft, an unknown id) is a silent no-op,
//! never an error.

use vstd::prelude::*;

pub mod laws;
pub mod model;
pub mod text;
pub mod view;

verus! {

/// Entry point used by a UI layer: builds the freshly seeded application
/// state, exactly as a component does on first mount.
#[allow(non_snake_case)]
pub fn App() -> (app: model::App)
    ensures
        app.model() == model::init_view(),
        app.wf(),
{
    model::App::create()
}

} // verus!
