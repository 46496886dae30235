use whip_relay::error::Error;
use whip_relay::sdp::{
    candidate_init, collect_candidates, collect_field, count_is_expected, decide_patch,
    extract_field, extract_sdp_field, plan_patch, read_current_credentials, read_offered_credentials,
    read_patch, split_lines, ExpectedFields, IceCandidateInit, IceCredentials, PatchAction,
};

fn malformed() -> Error {
    Error::InternalError("SDP malformed".to_string())
}

const FRAGMENT: &str = "a=ice-ufrag:EsAw\r\na=ice-pwd:P2uYro0UCOQ4zxjKXaWCBui1\r\nm=audio 9 RTP/AVP 0\r\na=mid:0\r\na=candidate:1387637174 1 udp 2122260223 192.0.2.1 61764 typ host generation 0\r\na=candidate:3471623853 1 udp 2122194687 198.51.100.1 61765 typ host generation 0\r\na=end-of-candidates\r\n";

const DESCRIPTION: &str = "v=0\r\no=- 1 1 IN IP4 0.0.0.0\r\ns=-\r\nt=0 0\r\na=ice-ufrag:EsAw\r\na=ice-pwd:P2uYro0UCOQ4zxjKXaWCBui1\r\nm=video 9 UDP/TLS/RTP/SAVPF 96\r\na=ice-ufrag:EsAw\r\na=ice-pwd:P2uYro0UCOQ4zxjKXaWCBui1\r\n";

#[test]
fn extract_collects_values_in_order() {
    let lines = vec!["a=candidate:1", "a=ice-ufrag:u", "a=candidate:2", "x"];
    assert_eq!(
        extract_sdp_field(lines, "a=candidate:", ExpectedFields::MANY),
        Ok(vec!["1", "2"])
    );
}

#[test]
fn extract_exactly_n() {
    let lines = vec!["a=ice-ufrag:u1", "a=ice-pwd:p"];
    assert_eq!(
        extract_sdp_field(lines.clone(), "a=ice-ufrag:", ExpectedFields::N(1)),
        Ok(vec!["u1"])
    );
    assert_eq!(
        extract_sdp_field(lines.clone(), "a=ice-ufrag:", ExpectedFields::N(2)),
        Err(malformed())
    );
    assert_eq!(
        extract_sdp_field(lines, "a=mid:", ExpectedFields::N(0)),
        Ok(vec![])
    );
}

#[test]
fn extract_duplicate_is_malformed_for_one() {
    let lines = vec!["a=ice-ufrag:u1", "a=ice-ufrag:u2"];
    assert_eq!(
        extract_sdp_field(lines, "a=ice-ufrag:", ExpectedFields::N(1)),
        Err(malformed())
    );
}

#[test]
fn extract_none_expected() {
    let lines = vec!["a=ice-ufrag:u1"];
    assert_eq!(
        extract_sdp_field(lines.clone(), "a=ice-pwd:", ExpectedFields::NONE),
        Ok(vec![])
    );
    assert_eq!(
        extract_sdp_field(lines, "a=ice-ufrag:", ExpectedFields::NONE),
        Err(malformed())
    );
}

#[test]
fn extract_many_needs_one() {
    let lines = vec!["v=0", "s=-"];
    assert_eq!(
        extract_sdp_field(lines, "a=ice-ufrag:", ExpectedFields::MANY),
        Err(malformed())
    );
    assert_eq!(
        extract_sdp_field(Vec::new(), "a=ice-ufrag:", ExpectedFields::MANY),
        Err(malformed())
    );
}

#[test]
fn count_is_expected_follows_each_expectation() {
    assert!(count_is_expected(ExpectedFields::NONE, 0));
    assert!(!count_is_expected(ExpectedFields::NONE, 1));
    assert!(count_is_expected(ExpectedFields::N(3), 3));
    assert!(!count_is_expected(ExpectedFields::N(3), 2));
    assert!(!count_is_expected(ExpectedFields::N(3), 4));
    assert!(count_is_expected(ExpectedFields::MANY, 1));
    assert!(count_is_expected(ExpectedFields::MANY, 7));
    assert!(!count_is_expected(ExpectedFields::MANY, 0));
}

#[test]
fn collect_field_keeps_empty_values() {
    let lines = vec!["a=ice-ufrag:", "a=ice-ufrag:x"];
    assert_eq!(collect_field(&lines, "a=ice-ufrag:"), vec!["", "x"]);
}

#[test]
fn a_prefix_counts_only_at_the_start_of_a_line() {
    let lines = vec![" a=ice-ufrag:x", "xa=ice-ufrag:y", "A=ICE-UFRAG:z"];
    assert_eq!(collect_field(&lines, "a=ice-ufrag:"), Vec::<&str>::new());
}

#[test]
fn split_lines_cuts_at_cr_lf_only() {
    assert_eq!(split_lines("a\r\nb\nc\rd\r\n"), vec!["a", "b\nc\rd", ""]);
}

#[test]
fn offered_credentials_are_read() {
    let lines = split_lines(FRAGMENT);
    assert_eq!(
        read_offered_credentials(&lines),
        Ok(IceCredentials { ufrag: "EsAw", pwd: "P2uYro0UCOQ4zxjKXaWCBui1" })
    );
}

#[test]
fn offered_credentials_must_not_repeat() {
    let lines = vec!["a=ice-ufrag:u", "a=ice-pwd:p", "a=ice-pwd:q"];
    assert_eq!(read_offered_credentials(&lines), Err(malformed()));
    let lines = vec!["a=ice-ufrag:u", "a=ice-ufrag:u", "a=ice-pwd:p"];
    assert_eq!(read_offered_credentials(&lines), Err(malformed()));
}

#[test]
fn offered_credentials_must_be_whole() {
    assert_eq!(read_offered_credentials(&vec!["a=ice-ufrag:u"]), Err(malformed()));
    assert_eq!(read_offered_credentials(&vec!["a=ice-pwd:p"]), Err(malformed()));
    assert_eq!(read_offered_credentials(&Vec::new()), Err(malformed()));
}

#[test]
fn current_credentials_are_the_first_of_each() {
    let lines = vec!["a=ice-ufrag:u1", "a=ice-pwd:first", "a=ice-ufrag:u2", "a=ice-pwd:second"];
    assert_eq!(
        read_current_credentials(&lines),
        Ok(IceCredentials { ufrag: "u1", pwd: "first" })
    );
}

#[test]
fn current_credentials_need_one_of_each() {
    assert_eq!(read_current_credentials(&vec!["a=ice-ufrag:u"]), Err(malformed()));
    assert_eq!(read_current_credentials(&vec!["a=ice-pwd:p", "a=ice-pwd:q"]), Err(malformed()));
    assert_eq!(read_current_credentials(&vec!["v=0"]), Err(malformed()));
}

#[test]
fn candidates_lose_their_attribute_mark() {
    let lines = split_lines(FRAGMENT);
    assert_eq!(
        collect_candidates(&lines),
        vec![
            "candidate:1387637174 1 udp 2122260223 192.0.2.1 61764 typ host generation 0",
            "candidate:3471623853 1 udp 2122194687 198.51.100.1 61765 typ host generation 0",
        ]
    );
}

#[test]
fn candidates_need_the_colon() {
    let lines = vec!["a=candidate", "a=candidates:1", "a=candidate:", "a=candidate:x"];
    assert_eq!(collect_candidates(&lines), vec!["candidate:", "candidate:x"]);
}

#[test]
fn same_credentials_add_the_candidates() {
    let lines = vec!["a=ice-ufrag:u", "a=candidate:1 1 udp 1 192.0.2.1 9 typ host", "a=ice-pwd:p"];
    let offered = IceCredentials { ufrag: "u", pwd: "p" };
    let current = IceCredentials { ufrag: "u", pwd: "p" };
    assert_eq!(
        decide_patch(&offered, &current, &lines),
        PatchAction::AddCandidates(vec!["candidate:1 1 udp 1 192.0.2.1 9 typ host"])
    );
}

#[test]
fn same_credentials_without_candidates_add_none() {
    let lines = vec!["a=ice-ufrag:u", "a=ice-pwd:p"];
    let both = IceCredentials { ufrag: "u", pwd: "p" };
    assert_eq!(decide_patch(&both, &both, &lines), PatchAction::AddCandidates(vec![]));
}

#[test]
fn another_ufrag_restarts_ice() {
    let lines = vec!["a=candidate:1 1 udp 1 192.0.2.1 9 typ host"];
    let offered = IceCredentials { ufrag: "v", pwd: "p" };
    let current = IceCredentials { ufrag: "u", pwd: "p" };
    assert_eq!(decide_patch(&offered, &current, &lines), PatchAction::RestartIce);
}

#[test]
fn another_pwd_restarts_ice() {
    let lines = vec!["a=candidate:1 1 udp 1 192.0.2.1 9 typ host"];
    let offered = IceCredentials { ufrag: "u", pwd: "q" };
    let current = IceCredentials { ufrag: "u", pwd: "p" };
    assert_eq!(decide_patch(&offered, &current, &lines), PatchAction::RestartIce);
}

#[test]
fn swapped_credentials_restart_ice() {
    let offered = IceCredentials { ufrag: "p", pwd: "u" };
    let current = IceCredentials { ufrag: "u", pwd: "p" };
    assert_eq!(decide_patch(&offered, &current, &Vec::new()), PatchAction::RestartIce);
    assert!(!offered.same_as(&current));
    assert!(current.same_as(&current));
}

#[test]
fn read_patch_keeps_every_line() {
    let patch = read_patch(FRAGMENT).unwrap();
    assert_eq!(patch.lines.len(), 8);
    assert_eq!(patch.lines[2], "m=audio 9 RTP/AVP 0");
    assert_eq!(patch.lines[7], "");
    assert_eq!(patch.credentials, IceCredentials { ufrag: "EsAw", pwd: "P2uYro0UCOQ4zxjKXaWCBui1" });
}

#[test]
fn read_patch_refuses_a_fragment_without_credentials() {
    assert_eq!(read_patch("a=candidate:1 1 udp 1 192.0.2.1 9 typ host\r\n"), Err(malformed()));
    assert_eq!(read_patch(""), Err(malformed()));
}

#[test]
fn read_patch_needs_cr_lf() {
    assert_eq!(read_patch("a=ice-ufrag:u\na=ice-pwd:p\n"), Err(malformed()));
}

#[test]
fn plan_patch_adds_candidates_for_the_sessions_credentials() {
    let patch = read_patch(FRAGMENT).unwrap();
    assert_eq!(
        plan_patch(&patch, DESCRIPTION),
        Ok(PatchAction::AddCandidates(vec![
            "candidate:1387637174 1 udp 2122260223 192.0.2.1 61764 typ host generation 0",
            "candidate:3471623853 1 udp 2122194687 198.51.100.1 61765 typ host generation 0",
        ]))
    );
}

#[test]
fn plan_patch_restarts_for_other_credentials() {
    let patch = read_patch("a=ice-ufrag:other\r\na=ice-pwd:P2uYro0UCOQ4zxjKXaWCBui1\r\na=candidate:1 1 udp 1 192.0.2.1 9 typ host\r\n").unwrap();
    assert_eq!(plan_patch(&patch, DESCRIPTION), Ok(PatchAction::RestartIce));
}

#[test]
fn plan_patch_refuses_a_description_without_credentials() {
    let patch = read_patch(FRAGMENT).unwrap();
    assert_eq!(plan_patch(&patch, "v=0\r\ns=-\r\n"), Err(malformed()));
    assert_eq!(plan_patch(&patch, "a=ice-ufrag:EsAw\r\n"), Err(malformed()));
}

#[test]
fn a_trickled_candidate_names_no_media() {
    assert_eq!(
        candidate_init("candidate:1 1 udp 1 192.0.2.1 9 typ host"),
        IceCandidateInit {
            candidate: "candidate:1 1 udp 1 192.0.2.1 9 typ host",
            sdp_mid: None,
            sdp_mline_index: None,
            username_fragment: None,
        }
    );
}

#[test]
fn extract_field_leaves_the_lines_with_the_caller() {
    let lines = vec!["a=ice-ufrag:u", "a=ice-pwd:p", "a=ice-pwd:q"];
    assert_eq!(extract_field(&lines, "a=ice-ufrag:", ExpectedFields::N(1)), Ok(vec!["u"]));
    assert_eq!(extract_field(&lines, "a=ice-pwd:", ExpectedFields::MANY), Ok(vec!["p", "q"]));
    assert_eq!(extract_field(&lines, "a=ice-pwd:", ExpectedFields::N(1)), Err(malformed()));
    assert_eq!(extract_field(&lines, "a=mid:", ExpectedFields::NONE), Ok(vec![]));
    assert_eq!(lines.len(), 3);
}
