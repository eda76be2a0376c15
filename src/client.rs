//! The client's side of a session: what its writing half does with each
//! request that its input hands it.
use crate::message::Request;
use vstd::prelude::*;

verus! {

/// What the client's writing half does next.
#[derive(Clone, Copy, Debug, PartialEq, Eq, Structural)]
pub enum ClientAction {
    /// Encode and send this request.
    Send(Request),
    /// End the session: the input asked to stop or has closed. No answer
    /// is awaited.
    Finish,
}

/// The next action for `input`, the next request from the input queue, or
/// `None` once that queue has closed. A request for no addresses ends the
/// session rather than being sent.
pub fn next_client_action(input: Option<Request>) -> (r: ClientAction)
    ensures
        match input {
            Some(req) => if req.num_addrs == 0 {
                r == ClientAction::Finish
            } else {
                r == ClientAction::Send(req)
            },
            None => r == ClientAction::Finish,
        },
{
    match input {
        Some(req) => if req.num_addrs == 0 {
            ClientAction::Finish
        } else {
            ClientAction::Send(req)
        },
        None => ClientAction::Finish,
    }
}

} // verus!
