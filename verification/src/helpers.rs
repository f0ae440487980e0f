//! Cross-cutting policies applied at every call site: the session guard
//! that logs the user out on an authentication failure, and the mapping of
//! classified errors to user-facing notices.

use crate::api::{ApiError, ApiInternalError};
use crate::text;
use crate::types::{LoginToken, StoredLogin};
use vstd::prelude::*;

verus! {

/// A transient notice shown to the user.
#[derive(Debug, Clone, PartialEq)]
pub struct Toast {
    /// Message to display to user
    pub message: String,
}

/// Is the error an authentication failure: a response with status 401?
pub open spec fn is_unauthorized(error: ApiError) -> bool {
    error matches ApiError::Response(e) && e.status_code == 401
}

/// Logout the user if the API returns a 401: clear the stored login, from
/// whichever operation the failure came. Returns true if the user was
/// logged out.
pub fn logout_on_401(login: &mut Option<StoredLogin>, error: &ApiError) -> (r: bool)
    ensures
        r == is_unauthorized(*error),
        r ==> *final(login) is None,
        !r ==> *final(login) == *old(login),
{
    if let ApiError::Response(e) = error {
        if e.status_code == 401 {
            *login = None;
            return true;
        }
    }
    false
}

/// The notice text for a classified error, parameterized by a short
/// description of the action that failed.
pub open spec fn spec_toast_message(error: ApiError, when: Seq<char>) -> Seq<char> {
    match error {
        ApiError::Internal(ApiInternalError::Connection) =>
            "Action failed as could not connect to server, when "@ + when,
        ApiError::Internal(_) => "Internal error occurred; action failed, when "@ + when,
        ApiError::Response(e) => if e.status_code == 404 {
            "Action failed as resource was not found, when "@ + when
        } else {
            "Action failed received status code '"@ + text::spec_udec(e.status_code as nat)
                + "', when "@ + when
        },
    }
}

/// Convert an API error to a toast message; 'when' is added to the
/// message to describe the action that failed.
pub fn api_error_to_toast(error: &ApiError, when: &str) -> (r: Toast)
    ensures
        r.message@ == spec_toast_message(*error, when@),
{
    match error {
        ApiError::Internal(e) => match e {
            ApiInternalError::Connection => {
                let mut s = String::new();
                s.append("Action failed as could not connect to server, when ");
                s.append(when);
                proof {
                    assert(Seq::<char>::empty()
                        + "Action failed as could not connect to server, when "@ + when@
                        =~= spec_toast_message(*error, when@));
                }
                Toast { message: s }
            },
            _ => {
                let mut s = String::new();
                s.append("Internal error occurred; action failed, when ");
                s.append(when);
                proof {
                    assert(Seq::<char>::empty() + "Internal error occurred; action failed, when "@
                        + when@ =~= spec_toast_message(*error, when@));
                }
                Toast { message: s }
            },
        },
        ApiError::Response(e) => {
            if e.status_code == 404 {
                let mut s = String::new();
                s.append("Action failed as resource was not found, when ");
                s.append(when);
                proof {
                    assert(Seq::<char>::empty()
                        + "Action failed as resource was not found, when "@ + when@
                        =~= spec_toast_message(*error, when@));
                }
                Toast { message: s }
            } else {
                let mut s = String::new();
                s.append("Action failed received status code '");
                text::push_u64(&mut s, e.status_code as u64);
                s.append("', when ");
                s.append(when);
                proof {
                    assert(Seq::<char>::empty() + "Action failed received status code '"@
                        + text::spec_udec(e.status_code as nat) + "', when "@ + when@
                        =~= spec_toast_message(*error, when@));
                }
                Toast { message: s }
            }
        },
    }
}

/// Remove the first toast whose message equals `toast`'s from the pending
/// queue; a message that is not queued leaves the queue unchanged.
pub fn remove_toast(toasts: &mut Vec<Toast>, toast: &Toast) -> (removed: bool)
    ensures
        !removed ==> *final(toasts) == *old(toasts) && forall|k: int|
            0 <= k < old(toasts)@.len() ==> (#[trigger] old(toasts)@[k]).message@
                != toast.message@,
        removed ==> exists|i: int|
            {
                &&& 0 <= i < old(toasts)@.len()
                &&& (#[trigger] old(toasts)@[i]).message@ == toast.message@
                &&& forall|k: int| 0 <= k < i ==> old(toasts)@[k].message@ != toast.message@
                &&& final(toasts)@ == old(toasts)@.remove(i)
            },
{
    let n = toasts.len();
    let mut i: usize = 0;
    while i < n
        invariant
            0 <= i <= n,
            n == toasts@.len(),
            toasts == old(toasts),
            forall|k: int| 0 <= k < i ==> (#[trigger] toasts@[k]).message@ != toast.message@,
        decreases n - i,
    {
        let eq = toasts[i].message == toast.message;
        if eq {
            toasts.remove(i);
            proof {
                let gi = i as int;
                assert((old(toasts)@[gi]).message@ == toast.message@);
                assert(final(toasts)@ == old(toasts)@.remove(gi));
            }
            return true;
        }
        i += 1;
    }
    false
}

/// The persisted login a successful authentication at `base` yields: the
/// API location under `/api`, the media location under `/media`, and the
/// issued token.
pub fn make_stored_login(base: &str, token: LoginToken) -> (r: StoredLogin)
    ensures
        r.api_url@ == base@ + "/api"@,
        r.media_url@ == base@ + "/media"@,
        r.token == token,
{
    let mut api_url = String::new();
    api_url.append(base);
    api_url.append("/api");
    let mut media_url = String::new();
    media_url.append(base);
    media_url.append("/media");
    proof {
        assert(Seq::<char>::empty() + base@ + "/api"@ =~= base@ + "/api"@);
        assert(Seq::<char>::empty() + base@ + "/media"@ =~= base@ + "/media"@);
    }
    StoredLogin { api_url, media_url, token }
}

} // verus!
