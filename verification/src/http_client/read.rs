//! Handing a connection back once its response is read.
use vstd::prelude::*;

verus! {

/// A reader cannot give its connection back while the server is still
/// sending data to be read.
#[derive(Debug)]
pub struct StreamNotEmpty;

/// Gives `client`, the connection a response was read from, back for a
/// new request; refused while the response body has not ended.
pub fn try_into_client<C>(client: C, body_ended: bool) -> (r: Result<C, StreamNotEmpty>)
    ensures
        body_ended ==> r == Ok::<C, StreamNotEmpty>(client),
        !body_ended ==> r is Err,
{
    if !body_ended {
        return Err(StreamNotEmpty);
    }
    Ok(client)
}

} // verus!
