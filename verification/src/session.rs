//! Session ids.
//!
//! Every peer connection, ingest or egress, is known by a 128-bit id that
//! is drawn at random when the connection is made. Clients meet it as a
//! UUID in the path of the session's resource.

use vstd::prelude::*;
use vstd::string::*;
use crate::error::{Error, ErrorView};
use crate::uuid_text::{
    hyphenated, is_random_uuid, lemma_hyphenated_is_injective, parse_uuid, random_uuid, uuid_reading,
    write_uuid,
};

verus! {

/// The id of one peer connection.
#[derive(Debug, Clone, Copy, PartialEq, Eq, Structural, Hash)]
pub struct SessionId {
    pub value: u128,
}

impl SessionId {
    /// Draws a fresh id at random.
    pub fn fresh() -> (id: SessionId)
        ensures
            is_random_uuid(id.value),
    {
        SessionId { value: random_uuid() }
    }

    /// Turns what came of reading a UUID, its value or the reason why
    /// the text is none, into a session id or into the failure that
    /// answers the request.
    pub fn from_parsed(parsed: Result<u128, String>) -> (read: Result<SessionId, Error>)
        ensures
            match parsed {
                Ok(value) => read == Ok::<SessionId, Error>(SessionId { value }),
                Err(reason) => read is Err && read->Err_0@ == ErrorView::BadUuid(reason@),
            },
    {
        match parsed {
            Ok(value) => Ok(SessionId { value }),
            Err(reason) => Err(Error::BadUuid(reason)),
        }
    }

    /// Reads a session id from the text of a resource path. Any text that
    /// the `uuid` crate reads as a UUID is one; any other is a bad
    /// request, with the crate's complaint as the cause.
    pub fn parse(text: &str) -> (read: Result<SessionId, Error>)
        ensures
            match read {
                Ok(id) => uuid_reading(text@) == Ok::<u128, Seq<char>>(id.value),
                Err(error) => uuid_reading(text@) matches Err(reason) && error@
                    == ErrorView::BadUuid(reason),
            },
    {
        SessionId::from_parsed(parse_uuid(text))
    }

    /// The id as clients see it: a hyphenated lower-case UUID, which
    /// reads back as this id.
    pub fn to_text(&self) -> (text: String)
        ensures
            text@ == hyphenated(self.value),
            uuid_reading(text@) == Ok::<u128, Seq<char>>(self.value),
    {
        write_uuid(self.value)
    }

    /// The path of the session's resource. Its last segment reads back
    /// as this id.
    pub fn location(&self) -> (path: String)
        ensures
            path@ == resource_path(*self),
            uuid_reading(path@.skip("/api/resource/"@.len() as int)) == Ok::<u128, Seq<char>>(
                self.value,
            ),
    {
        let text = self.to_text();
        proof {
            assert(("/api/resource/"@ + text@).skip("/api/resource/"@.len() as int) =~= text@);
        }
        "/api/resource/".to_owned().concat(text.as_str())
    }
}

/// The path of the resource that stands for a session. It is the
/// `Location` of the answer that created the session, and the path on
/// which its trickle-ICE fragments and its teardown arrive.
pub open spec fn resource_path(id: SessionId) -> Seq<char> {
    "/api/resource/"@ + hyphenated(id.value)
}

/// Two sessions whose ids differ have different resource paths, so the
/// `Location` headers of the answers that created them differ.
pub proof fn lemma_locations_differ(a: SessionId, b: SessionId)
    requires
        a != b,
    ensures
        resource_path(a) != resource_path(b),
{
    if resource_path(a) == resource_path(b) {
        let prefix = "/api/resource/"@;
        assert(hyphenated(a.value) =~= resource_path(a).skip(prefix.len() as int));
        assert(hyphenated(b.value) =~= resource_path(b).skip(prefix.len() as int));
        lemma_hyphenated_is_injective(a.value, b.value);
    }
}

} // verus!
