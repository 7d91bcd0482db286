use vstd::prelude::*;

verus! {

/// How long a provided component lives.
#[derive(Debug, Clone, PartialEq, Eq)]
pub enum InjectionScope {
    Singleton,
    Request,
    Transient,
}

/// One provider entry of a module: the token it answers to, the
/// implementing aggregate, its scope, and the tokens it depends on.
#[derive(Debug, Clone, PartialEq, Eq)]
pub struct Provider {
    pub token: String,
    pub implementation: String,
    pub scope: InjectionScope,
    pub dependencies: Vec<String>,
}

/// A component marked injectable, with the dependency list read off its
/// constructor.
#[derive(Debug, Clone, PartialEq, Eq)]
pub struct InjectableDefinition {
    pub name: String,
    pub dependencies: Vec<String>,
    pub scope: InjectionScope,
}

} // verus!
