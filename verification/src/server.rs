//! What the station's front end computes before it listens.

use vstd::prelude::*;
use crate::text::chain;

verus! {

/// The address to listen on: the host, a colon, and the port.
pub open spec fn bind_address_of(host: Seq<char>, port: Seq<char>) -> Seq<char> {
    host + ":"@ + port
}

/// The address to listen on.
pub fn bind_address(host: &str, port: &str) -> (a: String)
    ensures
        a@ == bind_address_of(host@, port@),
{
    let prefix = chain(host, ":");
    chain(prefix.as_str(), port)
}

/// The text of the error that is raised where the station's state cannot be
/// set up.
pub open spec fn init_failure_of(cause: Seq<char>) -> Seq<char> {
    "couldn't init server data: "@ + cause
}

/// The text of the error that is raised where the station's state cannot be
/// set up.
pub fn init_failure(cause: &str) -> (t: String)
    ensures
        t@ == init_failure_of(cause@),
{
    chain("couldn't init server data: ", cause)
}

} // verus!
