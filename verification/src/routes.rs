//! The routes of the signalling surface.
//!
//! All routes stand under `/api`. A publisher posts its offer to `/whip`
//! and a viewer to `/whep`; the answer names a resource under
//! `/resource/`, on which trickle-ICE fragments are patched in and the
//! session is ended.

use vstd::prelude::*;
use crate::session::{resource_path, SessionId};
use crate::text::{contains, occurs_at, same_text, strip_prefix, without_prefix};
use crate::uuid_text::{hyphenated, lemma_hyphenated_is_one_segment};

verus! {

/// What a request asks for.
#[derive(Debug, Clone, Copy, PartialEq, Eq)]
pub enum Route<'a> {
    /// `OPTIONS /api/whip`: which ICE servers the relay uses.
    Options,
    /// `POST /api/whip`: open a publisher's session.
    Ingest,
    /// `POST /api/whep`: open a viewer's session.
    Egress,
    /// `PATCH /api/resource/{session}`: take a trickle-ICE fragment for
    /// the session.
    Patch(&'a str),
    /// `DELETE /api/resource/{session}`: end the session's broadcast.
    Teardown(&'a str),
}

/// A [`Route`] with the session it names as a sequence of characters.
pub enum RouteView {
    Options,
    Ingest,
    Egress,
    Patch(Seq<char>),
    Teardown(Seq<char>),
}

impl<'a> View for Route<'a> {
    type V = RouteView;

    open spec fn view(&self) -> RouteView {
        match self {
            Route::Options => RouteView::Options,
            Route::Ingest => RouteView::Ingest,
            Route::Egress => RouteView::Egress,
            Route::Patch(session) => RouteView::Patch(session@),
            Route::Teardown(session) => RouteView::Teardown(session@),
        }
    }
}

/// The session that a path names: what stands behind `/api/resource/`,
/// if that is one segment, which is to say not empty and without a
/// slash.
pub open spec fn session_in(path: Seq<char>) -> Option<Seq<char>> {
    match without_prefix(path, "/api/resource/"@) {
        Some(segment) => if segment.len() > 0 && !(exists|at: int|
            occurs_at(segment, "/"@, at)) {
            Some(segment)
        } else {
            None
        },
        None => None,
    }
}

/// The route that a method and a path stand for, if they stand for one.
/// Methods and paths are taken to the letter.
pub open spec fn route_of(method: Seq<char>, path: Seq<char>) -> Option<RouteView> {
    if path == "/api/whip"@ {
        if method == "OPTIONS"@ {
            Some(RouteView::Options)
        } else if method == "POST"@ {
            Some(RouteView::Ingest)
        } else {
            None
        }
    } else if path == "/api/whep"@ {
        if method == "POST"@ {
            Some(RouteView::Egress)
        } else {
            None
        }
    } else {
        match session_in(path) {
            Some(session) => if method == "PATCH"@ {
                Some(RouteView::Patch(session))
            } else if method == "DELETE"@ {
                Some(RouteView::Teardown(session))
            } else {
                None
            },
            None => None,
        }
    }
}

/// Finds the session that a path names.
pub fn session_segment<'a>(path: &'a str) -> (session: Option<&'a str>)
    ensures
        match session {
            Some(segment) => session_in(path@) == Some(segment@),
            None => session_in(path@) is None,
        },
{
    match strip_prefix(path, "/api/resource/") {
        Some(segment) => {
            if segment.as_bytes().len() == 0 || contains(segment, "/") {
                None
            } else {
                Some(segment)
            }
        },
        None => None,
    }
}

/// Finds the route of a request. A request that has none is answered
/// with 404.
pub fn route<'a>(method: &str, path: &'a str) -> (found: Option<Route<'a>>)
    ensures
        match found {
            Some(route) => route_of(method@, path@) == Some(route@),
            None => route_of(method@, path@) is None,
        },
{
    if same_text(path, "/api/whip") {
        if same_text(method, "OPTIONS") {
            Some(Route::Options)
        } else if same_text(method, "POST") {
            Some(Route::Ingest)
        } else {
            None
        }
    } else if same_text(path, "/api/whep") {
        if same_text(method, "POST") {
            Some(Route::Egress)
        } else {
            None
        }
    } else {
        match session_segment(path) {
            Some(session) => {
                if same_text(method, "PATCH") {
                    Some(Route::Patch(session))
                } else if same_text(method, "DELETE") {
                    Some(Route::Teardown(session))
                } else {
                    None
                }
            },
            None => None,
        }
    }
}

/// The routes on which a request must carry a stream key as a bearer
/// token: those that open a session and the one that ends a broadcast.
pub open spec fn asks_for_stream_key(route: RouteView) -> bool {
    route is Ingest || route is Egress || route is Teardown
}

/// Tells whether a request on this route must carry a stream key.
pub fn needs_stream_key(route: &Route) -> (needed: bool)
    ensures
        needed == asks_for_stream_key(route@),
{
    match route {
        Route::Ingest => true,
        Route::Egress => true,
        Route::Teardown(_) => true,
        Route::Options => false,
        Route::Patch(_) => false,
    }
}

/// The resource that the relay names when it opens a session is one of
/// its routes: a fragment patched to it, and a request to delete it,
/// reach the session under the text of its id.
pub proof fn lemma_a_location_is_a_route(id: SessionId)
    ensures
        route_of("PATCH"@, resource_path(id)) == Some(RouteView::Patch(hyphenated(id.value))),
        route_of("DELETE"@, resource_path(id)) == Some(
            RouteView::Teardown(hyphenated(id.value)),
        ),
{
    let path = resource_path(id);
    let prefix = "/api/resource/"@;
    let segment = hyphenated(id.value);
    lemma_hyphenated_is_one_segment(id.value);
    reveal_strlit("/api/resource/");
    reveal_strlit("/api/whip");
    reveal_strlit("/api/whep");
    reveal_strlit("/");
    reveal_strlit("PATCH");
    reveal_strlit("DELETE");
    reveal_strlit("OPTIONS");
    reveal_strlit("POST");
    assert(path.subrange(0, prefix.len() as int) =~= prefix);
    assert(path.skip(prefix.len() as int) =~= segment);
    assert forall|at: int| !occurs_at(segment, "/"@, at) by {
        if occurs_at(segment, "/"@, at) {
            assert(segment.subrange(at, at + 1)[0] == '/');
        }
    }
    assert(session_in(path) == Some(segment));
    assert(path.len() == 50);
    assert("DELETE"@.len() == 6 && "PATCH"@.len() == 5);
    assert("/api/whip"@.len() == 9 && "/api/whep"@.len() == 9);
}

} // verus!
