use vstd::prelude::*;
use vstd::string::StringExecFns;

verus! {

/// A command could not be completed because the server's own state was not as
/// expected (a user known to exist could not be found).
#[derive(Debug)]
pub struct ServerError {
    pub msg: String,
}

impl ServerError {
    /// An error carrying that text.
    pub fn new(msg: &str) -> (r: ServerError)
        ensures
            r.msg@ == msg@,
    {
        ServerError { msg: String::from_str(msg) }
    }
}

} // verus!
