//! Asking the publisher for keyframes.
//!
//! A viewer that joins in the middle of a stream cannot decode it before
//! the next keyframe. So for every track that a publisher sends, the relay
//! asks for a keyframe again and again: it waits, sends a picture loss
//! indication, and goes on until sending fails.

use vstd::prelude::*;

verus! {

/// The number of seconds between two requests for a keyframe.
pub const KEYFRAME_INTERVAL_SECONDS: u64 = 3;

/// An RTCP picture loss indication: a request for a keyframe of the media
/// stream `media_ssrc`.
#[derive(Debug, Clone, Copy, PartialEq, Eq, Structural)]
pub struct PictureLossIndication {
    pub sender_ssrc: u32,
    pub media_ssrc: u32,
}

/// What the keyframe loop of one track does next.
#[derive(Debug, Clone, Copy, PartialEq, Eq, Structural)]
pub enum KeyframeStep {
    /// Wait this many seconds, then send the request on the publisher's
    /// peer connection.
    WaitThenSend { seconds: u64, request: PictureLossIndication },
    /// End the loop.
    Stop,
}

/// The request for a keyframe of one track: the track's SSRC as the media
/// source, and no sender.
pub open spec fn request_for(media_ssrc: u32) -> PictureLossIndication {
    PictureLossIndication { sender_ssrc: 0, media_ssrc }
}

/// Decides the next step of the keyframe loop of the track whose SSRC is
/// `media_ssrc`. `last_sent` tells whether the request before this one
/// could be sent; before the first request it is `true`. The loop goes on
/// as long as sending succeeds and ends at the first failure.
pub fn next_keyframe_step(media_ssrc: u32, last_sent: bool) -> (step: KeyframeStep)
    ensures
        last_sent ==> step == (KeyframeStep::WaitThenSend {
            seconds: KEYFRAME_INTERVAL_SECONDS,
            request: request_for(media_ssrc),
        }),
        !last_sent ==> step == KeyframeStep::Stop,
{
    if last_sent {
        KeyframeStep::WaitThenSend {
            seconds: KEYFRAME_INTERVAL_SECONDS,
            request: PictureLossIndication { sender_ssrc: 0, media_ssrc },
        }
    } else {
        KeyframeStep::Stop
    }
}

/// The number of requests that a loop has sent `elapsed` seconds after
/// its start, where every wait took its nominal time and no request
/// failed.
pub open spec fn requests_sent_by(elapsed: nat) -> nat {
    elapsed / (KEYFRAME_INTERVAL_SECONDS as nat)
}

/// Computes the number of requests that a loop has sent `elapsed_seconds`
/// after its start, where every wait took its nominal time and no request
/// failed.
pub fn requests_due(elapsed_seconds: u64) -> (count: u64)
    ensures
        count == requests_sent_by(elapsed_seconds as nat),
{
    elapsed_seconds / KEYFRAME_INTERVAL_SECONDS
}

/// On the nominal schedule, every span of one interval holds exactly one
/// request: no track goes longer than the interval without one.
pub proof fn lemma_one_request_in_every_interval(start: nat)
    ensures
        requests_sent_by(start + KEYFRAME_INTERVAL_SECONDS as nat) == requests_sent_by(start) + 1,
{
}

} // verus!
