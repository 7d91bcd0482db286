use vstd::prelude::*;

verus! {

/// The smallest service aggregate the translator emits, kept as a
/// compiled anchor for the shape of its output.
#[derive(Debug, PartialEq, Eq)]
pub struct CatsService {}

impl CatsService {
    pub fn new() -> (r: CatsService)
        ensures
            r == (CatsService {  }),
    {
        CatsService {  }
    }

    /// The sample greeting the service answers with.
    pub fn hello(&self) -> (r: String)
        ensures
            r@ == "Meow"@,
    {
        String::from_str("Meow")
    }
}

} // verus!
