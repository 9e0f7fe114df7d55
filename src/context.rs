//! What a long-running service shares between its requests.
use vstd::prelude::*;
use std::sync::Arc;
use crate::generator::Generator;

verus! {

/// The generator that serves every request, and the term used where a
/// request names none.
pub struct AppContext {
    pub generator: Arc<dyn Generator>,
    pub default_term: String,
}

} // verus!
