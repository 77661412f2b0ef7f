//! From what the user did to what is asked of the controller.

use vstd::prelude::*;
use super::app::Request;
use super::port::Response;

verus! {

/// Turns what the user did with the ports into requests.
pub struct Dispatcher;

/// The request that carries out the user's choice, if a choice was made.
pub open spec fn carries_out(response: Response, request: Request) -> bool {
    match response {
        Response::Connect((port_nb, port_name)) => request matches Request::Connect((nb, name)) && nb
            == port_nb && name@ == port_name@,
        Response::Disconnect(port_nb) => request matches Request::Disconnect(nb) && nb == port_nb,
        Response::CheckingList => false,
    }
}

impl Dispatcher {
    /// The requests that follow from what the user did, in the order in which
    /// they are to be made: none if the user did nothing; else a fresh look
    /// at the ports and then, if the user made a choice, that choice.
    pub fn handle(resp: Option<Response>) -> (requests: Vec<Request>)
        ensures
            resp is None ==> requests@.len() == 0,
            resp is Some ==> requests@.len() >= 1 && requests@[0] is RefreshPorts,
            resp matches Some(response) ==> (if response is CheckingList {
                requests@.len() == 1
            } else {
                requests@.len() == 2 && carries_out(response, requests@[1])
            }),
    {
        let mut requests: Vec<Request> = Vec::new();
        if let Some(resp) = resp {
            requests.push(Request::RefreshPorts);
            match resp {
                Response::Connect((port_nb, port_name)) => {
                    requests.push(Request::Connect((port_nb, port_name)));
                },
                Response::Disconnect(port_nb) => {
                    requests.push(Request::Disconnect(port_nb));
                },
                Response::CheckingList => {},
            }
        }
        requests
    }
}

} // verus!
