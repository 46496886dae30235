//! What each request of the signalling surface leads to.
//!
//! A request is first held against the rules of its route; what it asks
//! for is then done on the peer connection by the caller, and the outcome
//! decides the answer.

use vstd::prelude::*;
use crate::error::{Error, ErrorView};
use crate::registry::Subscriptions;
use crate::reply::{bare, bare_reply, error_reply, failed, Reply};
use crate::sdp::{offered_credentials, read_patch, sdp_lines, TricklePatch};
use crate::session::SessionId;
use crate::text::{same_text, texts_of};
use crate::uuid_text::{parse_uuid, uuid_reading};

verus! {

/// Why a request is turned away before anything is done for it.
#[derive(Debug, Clone, PartialEq, Eq)]
pub enum Refusal {
    /// The body is not announced as a trickle-ICE fragment. The answer is
    /// a bare 400.
    WrongContentType,
    /// The request cannot be served; the answer is that of the failure.
    Failed(Error),
}

impl Refusal {
    /// The answer that turns the request away.
    pub fn reply(&self) -> (reply: Reply)
        ensures
            reply@ == match self {
                Refusal::WrongContentType => bare(400),
                Refusal::Failed(error) => failed(error@),
            },
    {
        match self {
            Refusal::WrongContentType => bare_reply(400),
            Refusal::Failed(error) => error_reply(error),
        }
    }
}

/// A trickle-ICE request that has been read: the session it is for and
/// the fragment it carries.
#[derive(Debug, Clone, PartialEq, Eq)]
pub struct PatchRequest<'a> {
    pub session: SessionId,
    pub patch: TricklePatch<'a>,
}

/// Holds a trickle-ICE request against the rules of its route, given what
/// came of reading its session id as a UUID. The content type is looked
/// at first, then the session id, then the fragment.
pub fn admit_patch<'a>(content_type: &str, session: Result<u128, String>, fragment: &'a str) -> (admitted:
    Result<PatchRequest<'a>, Refusal>)
    ensures
        match admitted {
            Ok(request) => {
                &&& content_type@ == "application/trickle-ice-sdpfrag"@
                &&& session == Ok::<u128, String>(request.session.value)
                &&& texts_of(request.patch.lines@) == sdp_lines(fragment@)
                &&& offered_credentials(sdp_lines(fragment@)) == Some(
                    request.patch.credentials@,
                )
            },
            Err(Refusal::WrongContentType) => content_type@ != "application/trickle-ice-sdpfrag"@,
            Err(Refusal::Failed(error)) => {
                &&& content_type@ == "application/trickle-ice-sdpfrag"@
                &&& match session {
                    Err(reason) => error@ == ErrorView::BadUuid(reason@),
                    Ok(_) => {
                        &&& error@ == ErrorView::InternalError("SDP malformed"@)
                        &&& offered_credentials(sdp_lines(fragment@)) is None
                    },
                }
            },
        },
{
    if !same_text(content_type, "application/trickle-ice-sdpfrag") {
        return Err(Refusal::WrongContentType);
    }
    let session = match SessionId::from_parsed(session) {
        Ok(id) => id,
        Err(error) => {
            return Err(Refusal::Failed(error));
        },
    };
    match read_patch(fragment) {
        Ok(patch) => Ok(PatchRequest { session, patch }),
        Err(error) => Err(Refusal::Failed(error)),
    }
}

/// Holds a trickle-ICE request against the rules of its route: its
/// content type must be `application/trickle-ice-sdpfrag`, the last
/// segment of its path a UUID, and its body a fragment with exactly one
/// `a=ice-ufrag:` line and exactly one `a=ice-pwd:` line.
pub fn open_patch<'a>(content_type: &str, session_id: &str, fragment: &'a str) -> (admitted: Result<
    PatchRequest<'a>,
    Refusal,
>)
    ensures
        match admitted {
            Ok(request) => {
                &&& content_type@ == "application/trickle-ice-sdpfrag"@
                &&& uuid_reading(session_id@) == Ok::<u128, Seq<char>>(request.session.value)
                &&& texts_of(request.patch.lines@) == sdp_lines(fragment@)
                &&& offered_credentials(sdp_lines(fragment@)) == Some(
                    request.patch.credentials@,
                )
            },
            Err(Refusal::WrongContentType) => content_type@ != "application/trickle-ice-sdpfrag"@,
            Err(Refusal::Failed(error)) => {
                &&& content_type@ == "application/trickle-ice-sdpfrag"@
                &&& match uuid_reading(session_id@) {
                    Err(reason) => error@ == ErrorView::BadUuid(reason),
                    Ok(_) => {
                        &&& error@ == ErrorView::InternalError("SDP malformed"@)
                        &&& offered_credentials(sdp_lines(fragment@)) is None
                    },
                }
            },
        },
{
    admit_patch(content_type, parse_uuid(session_id), fragment)
}

/// Turns what the media stack reports of an operation into what the
/// request has come to.
pub fn stack_outcome(reported: Result<(), String>) -> (outcome: Result<(), Error>)
    ensures
        match reported {
            Ok(_) => outcome is Ok,
            Err(reason) => outcome is Err && outcome->Err_0@ == ErrorView::WebrtcError(reason@),
        },
{
    match reported {
        Ok(_) => Ok(()),
        Err(reason) => Err(Error::WebrtcError(reason)),
    }
}

/// The answer to a trickle-ICE request once its candidates are added or
/// the restart is asked for: 204 where the peer connection took it, and
/// the answer of the failure where it did not.
pub fn patch_reply(reported: Result<(), String>) -> (reply: Reply)
    ensures
        reply@ == match reported {
            Ok(_) => bare(204),
            Err(reason) => failed(ErrorView::WebrtcError(reason@)),
        },
{
    match stack_outcome(reported) {
        Ok(_) => bare_reply(204),
        Err(error) => error_reply(&error),
    }
}

/// What comes next while the candidates of a fragment are handed to the
/// peer connection.
#[derive(Debug, Clone, PartialEq, Eq)]
pub enum CandidateStep<'a> {
    /// Hand this candidate to the peer connection.
    Submit(&'a str),
    /// No candidate is handed over any more: answer the request.
    Answer(Reply),
}

/// Decides what comes next while the candidates of a fragment are handed
/// to the peer connection one by one, in their order. `submitted` tells
/// how many have been handed over, and `last` what the peer connection
/// made of the last of them; before the first it is `Ok`. A candidate
/// that the peer connection refuses ends the work: those behind it are
/// not handed over, those before it stay added, and the answer is that of
/// the failure. Once all are taken the answer is 204.
pub fn next_candidate<'a>(
    candidates: &Vec<&'a str>,
    submitted: usize,
    last: Result<(), String>,
) -> (step: CandidateStep<'a>)
    ensures
        match last {
            Err(reason) => step matches CandidateStep::Answer(reply) && reply@ == failed(
                ErrorView::WebrtcError(reason@),
            ),
            Ok(_) => if submitted < candidates@.len() {
                step matches CandidateStep::Submit(candidate) && candidate@
                    == candidates@[submitted as int]@
            } else {
                step matches CandidateStep::Answer(reply) && reply@ == bare(204)
            },
        },
{
    match last {
        Err(reason) => CandidateStep::Answer(patch_reply(Err(reason))),
        Ok(_) => {
            if submitted < candidates.len() {
                CandidateStep::Submit(candidates[submitted])
            } else {
                CandidateStep::Answer(patch_reply(Ok(())))
            }
        },
    }
}

/// Ends a broadcast once the session's peer connection has been asked to
/// close. Where it closed, the stream key and all its subscribers are
/// forgotten and the answer is 200. Where closing failed, the
/// subscriptions stay as they are and the answer is that of the failure.
pub fn finish_teardown<W>(
    subscriptions: &mut Subscriptions<W>,
    stream_key: &str,
    closed: Result<(), String>,
) -> (reply: Reply)
    ensures
        match closed {
            Ok(_) => {
                &&& final(subscriptions)@ == old(subscriptions)@.remove(stream_key@)
                &&& reply@ == bare(200)
            },
            Err(reason) => {
                &&& final(subscriptions)@ == old(subscriptions)@
                &&& reply@ == failed(ErrorView::WebrtcError(reason@))
            },
        },
{
    match stack_outcome(closed) {
        Ok(_) => {
            subscriptions.clear(stream_key);
            bare_reply(200)
        },
        Err(error) => error_reply(&error),
    }
}

} // verus!
