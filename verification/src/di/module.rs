use vstd::prelude::*;

use crate::di::provider::Provider;

verus! {

/// The composition metadata one module decorator declares.
#[derive(Debug, Clone, PartialEq, Eq)]
pub struct Module {
    pub name: String,
    pub imports: Vec<String>,
    pub providers: Vec<Provider>,
    pub controllers: Vec<String>,
    pub exports: Vec<String>,
}

} // verus!
