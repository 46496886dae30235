use whip_relay::error::Error;
use whip_relay::forward::{select_writers, ForwardAction, MediaKind};
use whip_relay::registry::{Sessions, Subscriptions, TrackPair};
use whip_relay::session::SessionId;

fn pair(n: u32) -> TrackPair<u32> {
    TrackPair { video: 2 * n, audio: 2 * n + 1 }
}

#[test]
fn a_new_registry_knows_no_session() {
    let sessions: Sessions<&str> = Sessions::new();
    assert_eq!(sessions.connection(SessionId { value: 1 }), None);
}

#[test]
fn a_registered_connection_is_found_under_its_id() {
    let mut sessions: Sessions<&str> = Sessions::new();
    assert_eq!(sessions.register(SessionId { value: 1 }, "publisher"), Ok(()));
    assert_eq!(sessions.register(SessionId { value: 2 }, "viewer"), Ok(()));
    assert_eq!(sessions.connection(SessionId { value: 1 }), Some(&"publisher"));
    assert_eq!(sessions.connection(SessionId { value: 2 }), Some(&"viewer"));
    assert_eq!(sessions.connection(SessionId { value: 3 }), None);
}

#[test]
fn an_id_in_use_is_refused_and_the_session_stays() {
    let mut sessions: Sessions<&str> = Sessions::new();
    assert_eq!(sessions.register(SessionId { value: 1 }, "first"), Ok(()));
    assert_eq!(
        sessions.register(SessionId { value: 1 }, "second"),
        Err(Error::InternalError("session id in use".to_string()))
    );
    assert_eq!(sessions.connection(SessionId { value: 1 }), Some(&"first"));
}

#[test]
fn no_filed_session_is_forgotten() {
    let mut sessions: Sessions<u128> = Sessions::new();
    for value in 0..50u128 {
        assert_eq!(sessions.register(SessionId { value }, value), Ok(()));
        assert!(sessions.register(SessionId { value: value / 2 }, 0).is_err());
    }
    for value in 0..50u128 {
        assert_eq!(sessions.connection(SessionId { value }), Some(&value));
    }
}

#[test]
fn sessions_filed_one_after_the_other_have_different_locations() {
    let mut sessions: Sessions<()> = Sessions::new();
    let mut locations: Vec<String> = Vec::new();
    for id in [SessionId::fresh(), SessionId::fresh(), SessionId { value: 7 }, SessionId { value: 7 }] {
        if sessions.register(id, ()).is_ok() {
            assert!(!locations.contains(&id.location()));
            locations.push(id.location());
        }
    }
    assert_eq!(locations.len(), 3);
}

#[test]
fn new_subscriptions_know_no_key() {
    let subscriptions: Subscriptions<u32> = Subscriptions::new();
    assert_eq!(subscriptions.subscribers("alice"), None);
    assert_eq!(subscriptions.subscribers(""), None);
}

#[test]
fn the_first_subscriber_makes_the_key_known() {
    let mut subscriptions = Subscriptions::new();
    subscriptions.subscribe("alice", pair(1));
    assert_eq!(subscriptions.subscribers("alice"), Some(&vec![pair(1)]));
    assert_eq!(subscriptions.subscribers("bob"), None);
}

#[test]
fn subscribers_keep_the_order_of_their_arrival() {
    let mut subscriptions = Subscriptions::new();
    subscriptions.subscribe("alice", pair(3));
    subscriptions.subscribe("bob", pair(9));
    subscriptions.subscribe("alice", pair(1));
    subscriptions.subscribe("alice", pair(2));
    assert_eq!(subscriptions.subscribers("alice"), Some(&vec![pair(3), pair(1), pair(2)]));
    assert_eq!(subscriptions.subscribers("bob"), Some(&vec![pair(9)]));
}

#[test]
fn a_pair_subscribed_twice_stands_twice() {
    let mut subscriptions = Subscriptions::new();
    subscriptions.subscribe("alice", pair(1));
    subscriptions.subscribe("alice", pair(1));
    assert_eq!(subscriptions.subscribers("alice"), Some(&vec![pair(1), pair(1)]));
}

#[test]
fn establish_makes_a_key_known_without_subscribers() {
    let mut subscriptions: Subscriptions<u32> = Subscriptions::new();
    subscriptions.establish("alice");
    assert_eq!(subscriptions.subscribers("alice"), Some(&vec![]));
    subscriptions.subscribe("alice", pair(1));
    assert_eq!(subscriptions.subscribers("alice"), Some(&vec![pair(1)]));
}

#[test]
fn establish_leaves_a_known_key_alone() {
    let mut subscriptions = Subscriptions::new();
    subscriptions.subscribe("alice", pair(1));
    subscriptions.establish("alice");
    assert_eq!(subscriptions.subscribers("alice"), Some(&vec![pair(1)]));
}

#[test]
fn clear_forgets_the_key_and_only_the_key() {
    let mut subscriptions = Subscriptions::new();
    subscriptions.subscribe("alice", pair(1));
    subscriptions.subscribe("bob", pair(2));
    subscriptions.subscribe("carol", pair(3));
    subscriptions.clear("bob");
    assert_eq!(subscriptions.subscribers("bob"), None);
    assert_eq!(subscriptions.subscribers("alice"), Some(&vec![pair(1)]));
    assert_eq!(subscriptions.subscribers("carol"), Some(&vec![pair(3)]));
}

#[test]
fn clearing_twice_is_clearing_once() {
    let mut subscriptions = Subscriptions::new();
    subscriptions.subscribe("alice", pair(1));
    subscriptions.subscribe("bob", pair(2));
    subscriptions.clear("alice");
    assert_eq!(subscriptions.subscribers("alice"), None);
    subscriptions.clear("alice");
    assert_eq!(subscriptions.subscribers("alice"), None);
    assert_eq!(subscriptions.subscribers("bob"), Some(&vec![pair(2)]));
}

#[test]
fn clearing_an_unknown_key_changes_nothing() {
    let mut subscriptions = Subscriptions::new();
    subscriptions.subscribe("alice", pair(1));
    subscriptions.clear("bob");
    assert_eq!(subscriptions.subscribers("alice"), Some(&vec![pair(1)]));
}

#[test]
fn a_cleared_key_can_come_back() {
    let mut subscriptions = Subscriptions::new();
    subscriptions.subscribe("alice", pair(1));
    subscriptions.clear("alice");
    subscriptions.subscribe("alice", pair(2));
    assert_eq!(subscriptions.subscribers("alice"), Some(&vec![pair(2)]));
}

#[test]
fn keys_are_told_apart_by_every_character() {
    let mut subscriptions = Subscriptions::new();
    subscriptions.subscribe("alice", pair(1));
    subscriptions.subscribe("Alice", pair(2));
    subscriptions.subscribe("alice ", pair(3));
    subscriptions.subscribe("", pair(4));
    assert_eq!(subscriptions.subscribers("alice"), Some(&vec![pair(1)]));
    assert_eq!(subscriptions.subscribers("Alice"), Some(&vec![pair(2)]));
    assert_eq!(subscriptions.subscribers("alice "), Some(&vec![pair(3)]));
    assert_eq!(subscriptions.subscribers(""), Some(&vec![pair(4)]));
}

#[test]
fn video_goes_to_video_writers_in_order() {
    let pairs = vec![pair(5), pair(1), pair(3)];
    assert_eq!(select_writers(&pairs, MediaKind::Video), vec![&10, &2, &6]);
}

#[test]
fn audio_goes_to_audio_writers_in_order() {
    let pairs = vec![pair(5), pair(1), pair(3)];
    assert_eq!(select_writers(&pairs, MediaKind::Audio), vec![&11, &3, &7]);
}

#[test]
fn a_packet_of_no_kind_goes_nowhere() {
    let pairs = vec![pair(5), pair(1)];
    assert_eq!(select_writers(&pairs, MediaKind::Unspecified), Vec::<&u32>::new());
}

#[test]
fn a_packet_for_an_unknown_key_establishes_it() {
    let mut subscriptions: Subscriptions<u32> = Subscriptions::new();
    assert!(matches!(
        subscriptions.plan_forward("alice", MediaKind::Video),
        ForwardAction::Establish
    ));
    subscriptions.establish("alice");
    match subscriptions.plan_forward("alice", MediaKind::Video) {
        ForwardAction::Write(writers) => assert!(writers.is_empty()),
        ForwardAction::Establish => panic!("the key is known"),
    }
}

#[test]
fn a_packet_is_written_to_every_subscriber_of_its_key() {
    let mut subscriptions = Subscriptions::new();
    subscriptions.subscribe("alice", pair(1));
    subscriptions.subscribe("bob", pair(2));
    subscriptions.subscribe("alice", pair(3));
    match subscriptions.plan_forward("alice", MediaKind::Audio) {
        ForwardAction::Write(writers) => assert_eq!(writers, vec![&3, &7]),
        ForwardAction::Establish => panic!("the key is known"),
    }
    match subscriptions.plan_forward("bob", MediaKind::Video) {
        ForwardAction::Write(writers) => assert_eq!(writers, vec![&4]),
        ForwardAction::Establish => panic!("the key is known"),
    }
}

#[test]
fn every_viewer_observes_the_packets_of_its_kind_in_order() {
    let mut subscriptions = Subscriptions::new();
    subscriptions.subscribe("alice", pair(0));
    subscriptions.subscribe("alice", pair(1));
    subscriptions.subscribe("alice", pair(2));
    let sent = [
        (MediaKind::Video, 100),
        (MediaKind::Audio, 101),
        (MediaKind::Unspecified, 102),
        (MediaKind::Video, 103),
        (MediaKind::Video, 104),
        (MediaKind::Audio, 105),
    ];
    let mut observed: Vec<Vec<i32>> = vec![Vec::new(); 6];
    for (kind, packet) in sent {
        match subscriptions.plan_forward("alice", kind) {
            ForwardAction::Write(writers) => {
                for writer in writers {
                    observed[*writer as usize].push(packet);
                }
            }
            ForwardAction::Establish => panic!("the key is known"),
        }
    }
    for viewer in 0..3 {
        assert_eq!(observed[2 * viewer], vec![100, 103, 104]);
        assert_eq!(observed[2 * viewer + 1], vec![101, 105]);
    }
}

#[test]
fn a_late_viewer_observes_what_is_sent_after_it_joined() {
    let mut subscriptions = Subscriptions::new();
    subscriptions.subscribe("alice", pair(0));
    let mut observed: Vec<Vec<i32>> = vec![Vec::new(); 4];
    for packet in 0..6 {
        if packet == 4 {
            subscriptions.subscribe("alice", pair(1));
        }
        if let ForwardAction::Write(writers) = subscriptions.plan_forward("alice", MediaKind::Video) {
            for writer in writers {
                observed[*writer as usize].push(packet);
            }
        }
    }
    assert_eq!(observed[0], vec![0, 1, 2, 3, 4, 5]);
    assert_eq!(observed[2], vec![4, 5]);
    assert!(observed[1].is_empty() && observed[3].is_empty());
}
