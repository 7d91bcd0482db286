use vstd::prelude::*;

verus! {

/// Where a run reads from and writes to.
#[derive(Debug, PartialEq, Eq)]
pub struct Config {
    pub input_path: String,
    pub output_path: String,
}

/// A source-file path, carried as plain text; the shell around the
/// library turns it into a real filesystem path.
#[derive(Debug, PartialEq, Eq)]
pub struct FilePath(pub String);

impl FilePath {
    /// The path's text.
    pub fn as_str(&self) -> (r: &str)
        ensures
            r@ == self.0@,
    {
        self.0.as_str()
    }
}

impl From<String> for FilePath {
    fn from(path: String) -> (r: FilePath) {
        FilePath(path)
    }
}

impl vstd::std_specs::convert::FromSpecImpl<String> for FilePath {
    open spec fn obeys_from_spec() -> bool {
        true
    }

    open spec fn from_spec(path: String) -> FilePath {
        FilePath(path)
    }
}

} // verus!
