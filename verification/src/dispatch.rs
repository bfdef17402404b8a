//! Routing of incoming messages to the service's interfaces.

use vstd::prelude::*;

verus! {

/// Where an incoming message goes.
#[derive(Debug, Clone, PartialEq, Eq)]
pub enum Route {
    /// To `Resolve`: the body is a resolve request.
    Resolve,
    /// The message names no receiver.
    MissingReceiver,
    /// The message names an interface the service does not have.
    UnknownApi(String),
}

/// The one interface the service offers.
pub open spec fn resolve_api() -> Seq<char> {
    "Resolve"@
}

/// The route for a message addressed to `receiver_api`, where it names a
/// receiver at all.
pub fn route(receiver_api: Option<String>) -> (r: Route)
    ensures
        receiver_api is None ==> r == Route::MissingReceiver,
        receiver_api matches Some(api) ==> if api@ == resolve_api() {
            r == Route::Resolve
        } else {
            r matches Route::UnknownApi(name) && name@ == api@
        },
{
    match receiver_api {
        None => Route::MissingReceiver,
        Some(api) => {
            let known = "Resolve".to_owned();
            if api == known {
                Route::Resolve
            } else {
                Route::UnknownApi(api)
            }
        },
    }
}

} // verus!
