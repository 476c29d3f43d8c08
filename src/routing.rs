//! Request routing: the root document, the event stream, and static files.

use vstd::prelude::*;

verus! {

/// The request methods the server tells apart.
#[derive(Debug, Clone, Copy, PartialEq, Eq)]
pub enum Method {
    Get,
    Head,
    Post,
    Put,
    Delete,
    Patch,
    Options,
    Other,
}

/// Where a request goes.
#[derive(Debug, PartialEq, Eq)]
pub enum Route {
    /// The root document.
    Root,
    /// The upgrade to a streaming session.
    Events,
    /// The static file at this path.
    Asset(String),
    /// Every route answers GET only.
    MethodNotAllowed,
}

/// `s` without its leading slashes.
pub open spec fn strip_leading_slashes(s: Seq<char>) -> Seq<char>
    decreases s.len(),
{
    if s.len() > 0 && s[0] == '/' {
        strip_leading_slashes(s.drop_first())
    } else {
        s
    }
}

/// Relies on `str::trim_start_matches` with a `char` pattern: it removes
/// every leading occurrence of that character.
#[verifier::external_body]
fn trim_leading_slashes(s: &str) -> (r: &str)
    ensures
        r@ == strip_leading_slashes(s@),
{
    s.trim_start_matches('/')
}

/// Routes a request by its method and path. The query string is not part of
/// `path`, so it never changes where a request goes.
pub fn route(method: Method, path: &str) -> (r: Route)
    ensures
        method != Method::Get ==> r == Route::MethodNotAllowed,
        method == Method::Get && path@ == "/"@ ==> r == Route::Root,
        method == Method::Get && path@ == "/events"@ ==> r == Route::Events,
        method == Method::Get && path@ != "/"@ && path@ != "/events"@ ==> (r matches Route::Asset(
            name,
        ) && name@ == strip_leading_slashes(path@)),
{
    match method {
        Method::Get => {},
        _ => {
            return Route::MethodNotAllowed;
        },
    }
    proof {
        reveal_strlit("/");
        reveal_strlit("/events");
        assert("/"@.len() != "/events"@.len());
    }
    let p = path.to_owned();
    if p == "/".to_owned() {
        Route::Root
    } else if p == "/events".to_owned() {
        Route::Events
    } else {
        Route::Asset(trim_leading_slashes(path).to_owned())
    }
}

} // verus!
