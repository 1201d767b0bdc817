//! Acting on containers: what Docker is asked for and what the user is told when
//! it fails.
use crate::containers::ContainerAction;
use crate::outside;
use vstd::prelude::*;
use vstd::string::*;

verus! {

/// Seconds that a container is given to stop before it is killed.
pub const STOP_TIMEOUT_SECS: i32 = 10;

/// A request to act on a container.
#[derive(Clone, Copy, Debug, PartialEq, Eq, Structural)]
pub enum ActionRequest {
    Start,
    /// Stop, and kill after a timeout in seconds
    Stop(i32),
    /// Stop, kill after a timeout in seconds, and start again
    Restart(i32),
    Remove {
        /// Remove even if running
        force: bool,
        /// Remove the volumes too
        volumes: bool,
        /// Remove a link
        link: bool,
    },
}

/// The request for an action. A shell is no request: it takes over the terminal.
pub open spec fn request_of(action: ContainerAction) -> Option<ActionRequest> {
    match action {
        ContainerAction::Start => Some(ActionRequest::Start),
        ContainerAction::Stop => Some(ActionRequest::Stop(STOP_TIMEOUT_SECS)),
        ContainerAction::Restart => Some(ActionRequest::Restart(STOP_TIMEOUT_SECS)),
        ContainerAction::Remove => Some(
            ActionRequest::Remove { force: true, volumes: false, link: false },
        ),
        ContainerAction::Shell => None,
    }
}

/// The request for an action, if it is one.
pub fn action_request(action: ContainerAction) -> (r: Option<ActionRequest>)
    ensures
        r == request_of(action),
{
    match action {
        ContainerAction::Start => Some(ActionRequest::Start),
        ContainerAction::Stop => Some(ActionRequest::Stop(STOP_TIMEOUT_SECS)),
        ContainerAction::Restart => Some(ActionRequest::Restart(STOP_TIMEOUT_SECS)),
        ContainerAction::Remove => Some(
            ActionRequest::Remove { force: true, volumes: false, link: false },
        ),
        ContainerAction::Shell => None,
    }
}

impl ActionRequest {
    /// The verb for the request.
    pub open spec fn verb_text(self) -> Seq<char> {
        match self {
            ActionRequest::Start => "start"@,
            ActionRequest::Stop(_) => "stop"@,
            ActionRequest::Restart(_) => "restart"@,
            ActionRequest::Remove { .. } => "remove"@,
        }
    }

    /// What the user is told when the request fails.
    pub fn failure_message(self, error: &str) -> (r: String)
        ensures
            r@ == "Failed to "@ + self.verb_text() + " container: "@ + error@,
    {
        let verb = match self {
            ActionRequest::Start => "start",
            ActionRequest::Stop(_) => "stop",
            ActionRequest::Restart(_) => "restart",
            ActionRequest::Remove { .. } => "remove",
        };
        let mut r = "Failed to ".to_owned();
        r.append(verb);
        r.append(" container: ");
        r.append(error);
        r
    }
}

/// A request is spoken of by its action's name in lower case. Every action but the
/// shell is a request; a container is given ten seconds to stop, and is removed
/// though it runs, without its volumes.
pub proof fn law_requests_are_called_as_actions(action: ContainerAction, request: ActionRequest)
    ensures
        request_of(action) is None <==> action == ContainerAction::Shell,
        request_of(action) == Some(request) ==> {
            &&& request.verb_text() == outside::lowercase(action.display_text())
            &&& request matches ActionRequest::Stop(secs) ==> secs == 10
            &&& request matches ActionRequest::Restart(secs) ==> secs == 10
            &&& request matches ActionRequest::Remove { force, volumes, link } ==> force && !volumes
                && !link
        },
{
    reveal_strlit("start");
    reveal_strlit("stop");
    reveal_strlit("restart");
    reveal_strlit("remove");
    reveal_strlit("Start");
    reveal_strlit("Stop");
    reveal_strlit("Restart");
    reveal_strlit("Remove");
    if request_of(action) == Some(request) {
        assert(outside::lowercase(action.display_text()) =~= request.verb_text());
    }
}

} // verus!
