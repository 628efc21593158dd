//! The tags that can be exported and imported as one collection.

use vstd::prelude::*;

verus! {

/// The tags known to the application: those that come from the catalogue and
/// those that the user added.
#[derive(Debug)]
pub struct TagCollection {
    pub available_tags: Vec<String>,
    pub custom_tags: Vec<String>,
}

} // verus!
