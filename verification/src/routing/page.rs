//! Parameters of the page routes.
use vstd::prelude::*;

verus! {

/// Which page form to show: a new page of type `mode`, or an edit of `page`.
#[derive(Debug, Clone)]
pub struct PageEditParameter {
    pub mode: Option<String>,
    pub page: Option<String>,
}

} // verus!
