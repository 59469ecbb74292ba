//! The error reported by the client's high-level operations.

use vstd::prelude::*;

verus! {

/// An error that occurred while talking to the service, with its message.
#[derive(Clone, Debug)]
pub struct ScrobblerError {
    err_msg: String,
}

impl View for ScrobblerError {
    type V = Seq<char>;

    closed spec fn view(&self) -> Seq<char> {
        self.err_msg@
    }
}

impl ScrobblerError {
    pub fn new(err_msg: String) -> (r: ScrobblerError)
        ensures
            r@ == err_msg@,
    {
        ScrobblerError { err_msg }
    }

    /// The error's message.
    pub fn description(&self) -> (r: &str)
        ensures
            r@ == self@,
    {
        self.err_msg.as_str()
    }

    /// The error's message, as its own string.
    pub fn message(&self) -> (r: String)
        ensures
            r@ == self@,
    {
        self.err_msg.clone()
    }
}

impl From<String> for ScrobblerError {
    fn from(error: String) -> ScrobblerError {
        ScrobblerError { err_msg: error }
    }
}

impl vstd::std_specs::convert::FromSpecImpl<String> for ScrobblerError {
    open spec fn obeys_from_spec() -> bool {
        true
    }

    closed spec fn from_spec(error: String) -> ScrobblerError {
        ScrobblerError { err_msg: error }
    }
}

} // verus!
