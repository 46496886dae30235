use whip_relay::error::Error;
use whip_relay::registry::{Subscriptions, TrackPair};
use whip_relay::reply::{Header, Reply};
use whip_relay::sdp::IceCredentials;
use whip_relay::session::SessionId;
use whip_relay::signaling::{
    admit_patch, finish_teardown, next_candidate, open_patch, patch_reply, stack_outcome,
    CandidateStep, Refusal,
};

const TRICKLE: &str = "application/trickle-ice-sdpfrag";
const SESSION: &str = "67e55044-10b1-426f-9247-bb680e5fe0c8";
const FRAGMENT: &str = "a=ice-ufrag:EsAw\r\na=ice-pwd:P2uY\r\na=candidate:1 1 udp 1 192.0.2.1 9 typ host\r\n";

fn status(status: u16) -> Reply {
    Reply { status, headers: vec![], body: String::new() }
}

fn failure(status: u16, body: &str) -> Reply {
    Reply {
        status,
        headers: vec![Header {
            name: "Content-Type".to_string(),
            value: "text/plain; charset=utf-8".to_string(),
        }],
        body: body.to_string(),
    }
}

#[test]
fn a_well_formed_patch_is_admitted() {
    let request = open_patch(TRICKLE, SESSION, FRAGMENT).unwrap();
    assert_eq!(request.session, SessionId { value: 0x67e55044_10b1_426f_9247_bb680e5fe0c8 });
    assert_eq!(request.patch.credentials, IceCredentials { ufrag: "EsAw", pwd: "P2uY" });
    assert_eq!(
        request.patch.lines,
        vec!["a=ice-ufrag:EsAw", "a=ice-pwd:P2uY", "a=candidate:1 1 udp 1 192.0.2.1 9 typ host", ""]
    );
}

#[test]
fn the_content_type_is_looked_at_first() {
    assert_eq!(open_patch("text/plain", "alice", ""), Err(Refusal::WrongContentType));
    assert_eq!(open_patch("", SESSION, FRAGMENT), Err(Refusal::WrongContentType));
    assert_eq!(open_patch("application/sdp", SESSION, FRAGMENT), Err(Refusal::WrongContentType));
    assert_eq!(
        open_patch("Application/Trickle-Ice-Sdpfrag", SESSION, FRAGMENT),
        Err(Refusal::WrongContentType)
    );
}

#[test]
fn the_session_id_is_looked_at_before_the_fragment() {
    match open_patch(TRICKLE, "alice", "") {
        Err(Refusal::Failed(Error::BadUuid(_))) => {}
        other => panic!("{:?}", other),
    }
}

#[test]
fn a_malformed_fragment_is_refused() {
    let malformed = Err(Refusal::Failed(Error::InternalError("SDP malformed".to_string())));
    assert_eq!(open_patch(TRICKLE, SESSION, ""), malformed);
    assert_eq!(open_patch(TRICKLE, SESSION, "a=ice-ufrag:EsAw\r\n"), malformed);
    assert_eq!(
        open_patch(TRICKLE, SESSION, "a=ice-ufrag:a\r\na=ice-ufrag:b\r\na=ice-pwd:c\r\n"),
        malformed
    );
}

#[test]
fn admit_patch_takes_the_outcome_of_reading_the_session_id() {
    let request = admit_patch(TRICKLE, Ok(9), FRAGMENT).unwrap();
    assert_eq!(request.session, SessionId { value: 9 });
    assert_eq!(
        admit_patch(TRICKLE, Err("invalid character".to_string()), FRAGMENT),
        Err(Refusal::Failed(Error::BadUuid("invalid character".to_string())))
    );
    assert_eq!(
        admit_patch("text/plain", Err("invalid character".to_string()), FRAGMENT),
        Err(Refusal::WrongContentType)
    );
    assert_eq!(
        admit_patch(TRICKLE, Ok(9), "a=ice-pwd:c\r\n"),
        Err(Refusal::Failed(Error::InternalError("SDP malformed".to_string())))
    );
}

#[test]
fn each_refusal_has_its_answer() {
    assert_eq!(Refusal::WrongContentType.reply(), status(400));
    assert_eq!(
        Refusal::Failed(Error::BadUuid("invalid length".to_string())).reply(),
        failure(400, "Bad UUID: invalid length")
    );
    assert_eq!(
        Refusal::Failed(Error::malformed_sdp()).reply(),
        failure(500, "Internal Error: SDP malformed")
    );
}

#[test]
fn the_stacks_failure_becomes_the_requests_failure() {
    assert_eq!(stack_outcome(Ok(())), Ok(()));
    assert_eq!(
        stack_outcome(Err("connection closed".to_string())),
        Err(Error::WebrtcError("connection closed".to_string()))
    );
}

#[test]
fn a_patch_that_was_taken_is_answered_with_204() {
    assert_eq!(patch_reply(Ok(())), status(204));
}

#[test]
fn a_patch_that_the_stack_refused_is_answered_with_500() {
    assert_eq!(
        patch_reply(Err("bad candidate".to_string())),
        failure(500, "Webrtc Error: bad candidate")
    );
}

#[test]
fn teardown_forgets_the_stream_key() {
    let mut subscriptions = Subscriptions::new();
    subscriptions.subscribe("alice", TrackPair { video: 1, audio: 2 });
    subscriptions.subscribe("alice", TrackPair { video: 3, audio: 4 });
    subscriptions.subscribe("bob", TrackPair { video: 5, audio: 6 });
    assert_eq!(finish_teardown(&mut subscriptions, "alice", Ok(())), status(200));
    assert_eq!(subscriptions.subscribers("alice"), None);
    assert_eq!(subscriptions.subscribers("bob"), Some(&vec![TrackPair { video: 5, audio: 6 }]));
}

#[test]
fn a_second_teardown_changes_nothing() {
    let mut subscriptions = Subscriptions::new();
    subscriptions.subscribe("alice", TrackPair { video: 1, audio: 2 });
    subscriptions.subscribe("bob", TrackPair { video: 5, audio: 6 });
    assert_eq!(finish_teardown(&mut subscriptions, "alice", Ok(())), status(200));
    assert_eq!(finish_teardown(&mut subscriptions, "alice", Ok(())), status(200));
    assert_eq!(subscriptions.subscribers("alice"), None);
    assert_eq!(subscriptions.subscribers("bob"), Some(&vec![TrackPair { video: 5, audio: 6 }]));
}

#[test]
fn a_teardown_that_could_not_close_keeps_the_subscriptions() {
    let mut subscriptions = Subscriptions::new();
    subscriptions.subscribe("alice", TrackPair { video: 1, audio: 2 });
    assert_eq!(
        finish_teardown(&mut subscriptions, "alice", Err("close failed".to_string())),
        failure(500, "Webrtc Error: close failed")
    );
    assert_eq!(subscriptions.subscribers("alice"), Some(&vec![TrackPair { video: 1, audio: 2 }]));
}

#[test]
fn candidates_are_handed_over_one_by_one() {
    let candidates = vec!["candidate:a", "candidate:b"];
    assert_eq!(next_candidate(&candidates, 0, Ok(())), CandidateStep::Submit("candidate:a"));
    assert_eq!(next_candidate(&candidates, 1, Ok(())), CandidateStep::Submit("candidate:b"));
    assert_eq!(next_candidate(&candidates, 2, Ok(())), CandidateStep::Answer(status(204)));
    assert_eq!(next_candidate(&candidates, 3, Ok(())), CandidateStep::Answer(status(204)));
}

#[test]
fn a_fragment_without_candidates_is_answered_at_once() {
    assert_eq!(next_candidate(&Vec::new(), 0, Ok(())), CandidateStep::Answer(status(204)));
}

#[test]
fn a_refused_candidate_ends_the_work() {
    let candidates = vec!["candidate:a", "candidate:b", "candidate:c"];
    for submitted in 0..5 {
        assert_eq!(
            next_candidate(&candidates, submitted, Err("bad candidate".to_string())),
            CandidateStep::Answer(failure(500, "Webrtc Error: bad candidate"))
        );
    }
}
