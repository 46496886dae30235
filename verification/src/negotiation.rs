//! Setting up a session, step by step.
//!
//! A publisher and a viewer both open a session by posting an SDP offer.
//! The relay builds a peer connection for it, answers the offer and waits
//! until its own ICE candidates are gathered, so that the answer it sends
//! back is complete. Each step is work for the media stack and may fail;
//! the order of the steps, and what a failure leads to, is decided here.

use vstd::prelude::*;
use vstd::string::*;
use crate::error::{Error, ErrorView};
use crate::registry::{Sessions, TrackPair};
use crate::session::SessionId;
use crate::uuid_text::hyphenated;

verus! {

/// The side of a broadcast that a session is on.
#[derive(Debug, Clone, Copy, PartialEq, Eq, Structural, Hash)]
pub enum Role {
    /// A publisher that uploads a stream.
    Ingest,
    /// A viewer that receives one.
    Egress,
}

/// One step of setting up a session.
#[derive(Debug, Clone, Copy, PartialEq, Eq, Structural, Hash)]
pub enum Step {
    /// Build a peer connection from the relay's configuration.
    CreateConnection,
    /// Install the handler that starts, for every track the publisher
    /// sends, its forwarding loop and its keyframe loop.
    InstallTrackHandler,
    /// Make the viewer's video track and audio track.
    CreateTracks,
    /// Add the video track to the peer connection as a sender.
    AddVideoTrack,
    /// Add the audio track to the peer connection as a sender.
    AddAudioTrack,
    /// Start, for each of the two senders, the task that reads and
    /// discards the RTCP feedback that arrives for it.
    DrainFeedback,
    /// Subscribe the viewer's tracks to the stream key.
    Subscribe,
    /// Apply the offer as the remote description.
    ApplyOffer,
    /// Create the answer.
    CreateAnswer,
    /// Apply the answer as the local description.
    ApplyAnswer,
    /// Wait until ICE gathering is complete.
    AwaitGathering,
    /// File the peer connection under the session id.
    Register,
    /// Answer the request with the local description as it now stands.
    Respond,
}

/// The steps that set up a session, in their order. A publisher's track
/// handler is installed before its offer is applied, so that media which
/// arrives early is not lost; a viewer is subscribed before its offer is
/// applied, so that packets forwarded while its candidates are gathered
/// reach it.
pub open spec fn steps(role: Role) -> Seq<Step> {
    match role {
        Role::Ingest => seq![
            Step::CreateConnection,
            Step::InstallTrackHandler,
            Step::ApplyOffer,
            Step::CreateAnswer,
            Step::ApplyAnswer,
            Step::AwaitGathering,
            Step::Register,
            Step::Respond,
        ],
        Role::Egress => seq![
            Step::CreateConnection,
            Step::CreateTracks,
            Step::AddVideoTrack,
            Step::AddAudioTrack,
            Step::DrainFeedback,
            Step::Subscribe,
            Step::ApplyOffer,
            Step::CreateAnswer,
            Step::ApplyAnswer,
            Step::AwaitGathering,
            Step::Register,
            Step::Respond,
        ],
    }
}

/// What follows a step.
#[derive(Debug, Clone, PartialEq, Eq)]
pub enum Progress {
    /// Take this step next.
    Continue(Step),
    /// The session is set up and the request answered.
    Finished,
    /// Give up and answer the request with this failure. What was done so
    /// far stays done.
    Failed(Error),
}

/// The first step of setting up a session.
pub fn first_step(role: Role) -> (step: Step)
    ensures
        step == steps(role)[0],
{
    Step::CreateConnection
}

/// The step that follows `done` in the setup of a session; `None` after
/// the last step, and for a step that the role's plan does not hold.
pub open spec fn successor(role: Role, done: Step) -> Option<Step> {
    let plan = steps(role);
    let at = plan.index_of(done);
    if plan.contains(done) && at + 1 < plan.len() {
        Some(plan[at + 1])
    } else {
        None
    }
}

/// No step is taken twice in the setup of a session.
pub proof fn lemma_steps_are_distinct(role: Role)
    ensures
        forall|i: int, j: int|
            0 <= i < steps(role).len() && 0 <= j < steps(role).len() && steps(role)[i] == steps(
                role,
            )[j] ==> i == j,
{
}

/// Every step of a plan but the last is followed by the step that stands
/// after it.
pub proof fn lemma_each_step_is_followed_by_the_next(role: Role, at: int)
    requires
        0 <= at < steps(role).len(),
    ensures
        successor(role, steps(role)[at]) == if at + 1 < steps(role).len() {
            Some(steps(role)[at + 1])
        } else {
            None
        },
{
    let plan = steps(role);
    lemma_steps_are_distinct(role);
    assert(plan.contains(plan[at]));
    assert(plan.index_of(plan[at]) == at);
}

/// Decides what follows a step, given what the media stack reported of
/// it. A step that failed ends the setup with the stack's failure. A step
/// that succeeded is followed by the next step of the role's plan; after
/// the last, the setup is finished. A step that is not part of the role's
/// plan ends the setup with an internal failure.
pub fn next_step(role: Role, done: Step, reported: Result<(), String>) -> (progress: Progress)
    ensures
        match reported {
            Err(reason) => progress matches Progress::Failed(error) && error@
                == ErrorView::WebrtcError(reason@),
            Ok(_) => match successor(role, done) {
                Some(next) => progress == Progress::Continue(next),
                None => if steps(role).contains(done) {
                    progress == Progress::Finished
                } else {
                    progress matches Progress::Failed(error) && error@
                        == ErrorView::InternalError("step out of place"@)
                },
            },
        },
{
    if let Err(reason) = reported {
        return Progress::Failed(Error::WebrtcError(reason));
    }
    let ghost plan = steps(role);
    let next = match (role, done) {
        (Role::Ingest, Step::CreateConnection) => Some(Step::InstallTrackHandler),
        (Role::Ingest, Step::InstallTrackHandler) => Some(Step::ApplyOffer),
        (Role::Egress, Step::CreateConnection) => Some(Step::CreateTracks),
        (Role::Egress, Step::CreateTracks) => Some(Step::AddVideoTrack),
        (Role::Egress, Step::AddVideoTrack) => Some(Step::AddAudioTrack),
        (Role::Egress, Step::AddAudioTrack) => Some(Step::DrainFeedback),
        (Role::Egress, Step::DrainFeedback) => Some(Step::Subscribe),
        (Role::Egress, Step::Subscribe) => Some(Step::ApplyOffer),
        (_, Step::ApplyOffer) => Some(Step::CreateAnswer),
        (_, Step::CreateAnswer) => Some(Step::ApplyAnswer),
        (_, Step::ApplyAnswer) => Some(Step::AwaitGathering),
        (_, Step::AwaitGathering) => Some(Step::Register),
        (_, Step::Register) => Some(Step::Respond),
        _ => None,
    };
    match next {
        Some(step) => {
            proof {
                lemma_steps_are_distinct(role);
                let at = plan.index_of(step) - 1;
                assert(plan[at] == done && plan[at + 1] == step);
                lemma_each_step_is_followed_by_the_next(role, at);
            }
            Progress::Continue(step)
        },
        None => {
            if done == Step::Respond {
                proof {
                    lemma_each_step_is_followed_by_the_next(role, plan.len() - 1);
                }
                Progress::Finished
            } else {
                proof {
                    assert(!plan.contains(done));
                }
                Progress::Failed(Error::InternalError("step out of place".to_owned()))
            }
        },
    }
}

/// Takes the step [`Step::Register`]: files the session's peer connection
/// under its id and says what follows. Where no session is filed under
/// the id, the connection is filed and the request is answered next. An
/// id that is in use ends the setup with an internal failure, and the
/// registry stays as it is: a session that stands never gives way to
/// another.
pub fn file_session<C>(role: Role, sessions: &mut Sessions<C>, id: SessionId, connection: C) -> (progress:
    Progress)
    ensures
        !old(sessions)@.contains_key(id) ==> {
            &&& final(sessions)@ == old(sessions)@.insert(id, connection)
            &&& progress == Progress::Continue(Step::Respond)
        },
        old(sessions)@.contains_key(id) ==> {
            &&& final(sessions)@ == old(sessions)@
            &&& progress matches Progress::Failed(error) && error@ == ErrorView::InternalError(
                "session id in use"@,
            )
        },
        forall|known: SessionId|
            old(sessions)@.contains_key(known) ==> final(sessions)@.contains_key(known),
{
    match sessions.register(id, connection) {
        Ok(_) => {
            proof {
                let at = steps(role).len() - 2;
                assert(steps(role)[at] == Step::Register);
                lemma_each_step_is_followed_by_the_next(role, at);
            }
            next_step(role, Step::Register, Ok(()))
        },
        Err(error) => Progress::Failed(error),
    }
}

/// `earlier` stands before `later` in the setup of a session.
pub open spec fn precedes(role: Role, earlier: Step, later: Step) -> bool {
    exists|i: int, j: int|
        0 <= i < j < steps(role).len() && steps(role)[i] == earlier && steps(role)[j] == later
}

/// The order that the setup keeps. A publisher's track handler stands
/// before its offer is applied, a viewer is subscribed before its offer
/// is applied, and a session is filed only once its candidates are
/// gathered, just before the request is answered.
pub proof fn lemma_setup_keeps_its_order(role: Role)
    ensures
        precedes(Role::Ingest, Step::InstallTrackHandler, Step::ApplyOffer),
        precedes(Role::Egress, Step::Subscribe, Step::ApplyOffer),
        precedes(role, Step::AwaitGathering, Step::Register),
        precedes(role, Step::Register, Step::Respond),
        steps(role).last() == Step::Respond,
{
    let ingest = steps(Role::Ingest);
    let egress = steps(Role::Egress);
    assert(ingest[1] == Step::InstallTrackHandler && ingest[2] == Step::ApplyOffer);
    assert(egress[5] == Step::Subscribe && egress[6] == Step::ApplyOffer);
    let plan = steps(role);
    let n = plan.len() as int;
    assert(plan[n - 3] == Step::AwaitGathering && plan[n - 2] == Step::Register && plan[n - 1]
        == Step::Respond);
}

/// What a viewer's track is made with.
#[derive(Debug, Clone, PartialEq, Eq)]
pub struct TrackPlan {
    /// The MIME type of the track's codec.
    pub mime_type: String,
    /// The id of the track.
    pub id: String,
    /// The id of the stream that the track belongs to.
    pub stream_id: String,
}

/// Plans the two tracks through which a viewer is fed: H.264 for video
/// and Opus for audio, in one stream. The ids are made from the session
/// id, so that they stay the same for as long as the session lasts.
pub fn plan_tracks(id: SessionId) -> (tracks: TrackPair<TrackPlan>)
    ensures
        tracks.video.mime_type@ == "video/H264"@,
        tracks.video.id@ == "video_"@ + hyphenated(id.value),
        tracks.video.stream_id@ == "webrtc-rs_"@ + hyphenated(id.value),
        tracks.audio.mime_type@ == "audio/opus"@,
        tracks.audio.id@ == "audio_"@ + hyphenated(id.value),
        tracks.audio.stream_id@ == "webrtc-rs_"@ + hyphenated(id.value),
{
    let text = id.to_text();
    TrackPair {
        video: TrackPlan {
            mime_type: "video/H264".to_owned(),
            id: "video_".to_owned().concat(text.as_str()),
            stream_id: "webrtc-rs_".to_owned().concat(text.as_str()),
        },
        audio: TrackPlan {
            mime_type: "audio/opus".to_owned(),
            id: "audio_".to_owned().concat(text.as_str()),
            stream_id: "webrtc-rs_".to_owned().concat(text.as_str()),
        },
    }
}

} // verus!
