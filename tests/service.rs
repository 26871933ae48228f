use block_hash_service::guardian::{answer_body, settle_query};
use block_hash_service::response::{hash_string, render_body, BlockHash};
use block_hash_service::route::{parse_route, RouteError};
use block_hash_service::startup::{after_handshake, initial_phase, Action, Phase};

fn counting_hash() -> BlockHash {
    let mut bytes = [0u8; 32];
    for (i, b) in bytes.iter_mut().enumerate() {
        *b = i as u8;
    }
    BlockHash { bytes }
}

const COUNTING_HEX: &str = "0x000102030405060708090a0b0c0d0e0f101112131415161718191a1b1c1d1e1f";

#[test]
fn latest_block_routes() {
    assert_eq!(parse_route("/block"), Ok(None));
    assert_eq!(parse_route("/block/"), Ok(None));
}

#[test]
fn numbered_block_routes() {
    assert_eq!(parse_route("/block/5"), Ok(Some(5)));
    assert_eq!(parse_route("/block/5/"), Ok(Some(5)));
    assert_eq!(parse_route("/block/0"), Ok(Some(0)));
    assert_eq!(parse_route("/block/007"), Ok(Some(7)));
    assert_eq!(parse_route("/block/+42"), Ok(Some(42)));
    assert_eq!(parse_route("/block/4294967295"), Ok(Some(u32::MAX)));
}

#[test]
fn trailing_slash_gives_same_route() {
    for path in ["/block", "/block/5", "/block/123456", "/block/x", "/blocks", "", "/block/5/6"] {
        let with_slash = format!("{}/", path);
        assert_eq!(parse_route(path), parse_route(&with_slash), "{}", path);
    }
}

#[test]
fn malformed_heights_are_rejected() {
    assert_eq!(parse_route("/block/abc"), Err(RouteError::BadHeight));
    assert_eq!(parse_route("/block/-1"), Err(RouteError::BadHeight));
    assert_eq!(parse_route("/block/+"), Err(RouteError::BadHeight));
    assert_eq!(parse_route("/block/12a"), Err(RouteError::BadHeight));
    assert_eq!(parse_route("/block/4294967296"), Err(RouteError::BadHeight));
    assert_eq!(parse_route("/block/99999999999999999999"), Err(RouteError::BadHeight));
}

#[test]
fn unknown_paths_are_not_found() {
    assert_eq!(parse_route(""), Err(RouteError::NotFound));
    assert_eq!(parse_route("/"), Err(RouteError::NotFound));
    assert_eq!(parse_route("/blocks"), Err(RouteError::NotFound));
    assert_eq!(parse_route("/block//"), Err(RouteError::NotFound));
    assert_eq!(parse_route("/block/5//"), Err(RouteError::NotFound));
    assert_eq!(parse_route("/block/5/6"), Err(RouteError::NotFound));
    assert_eq!(parse_route("block/5"), Err(RouteError::NotFound));
    assert_eq!(parse_route("/Block/5"), Err(RouteError::NotFound));
}

#[test]
fn hash_text_is_full_lower_hex() {
    assert_eq!(hash_string(&counting_hash()), COUNTING_HEX);
    let ones = BlockHash { bytes: [0xff; 32] };
    assert_eq!(hash_string(&ones), format!("0x{}", "f".repeat(64)));
    let zeros = BlockHash { bytes: [0; 32] };
    assert_eq!(hash_string(&zeros), format!("0x{}", "0".repeat(64)));
}

#[test]
fn body_for_absent_hash() {
    assert_eq!(render_body(&None), "Hash: None");
}

#[test]
fn body_for_present_hash() {
    assert_eq!(render_body(&Some(counting_hash())), format!("Hash: Some({})", COUNTING_HEX));
}

#[test]
fn block_beyond_chain_renders_absence_marker() {
    let outcome: Result<Option<BlockHash>, String> = Ok(None);
    assert_eq!(answer_body(outcome), "Hash: None");
}

#[test]
fn failed_query_collapses_to_absence() {
    let outcome: Result<Option<BlockHash>, String> = Err("connection reset".to_string());
    assert_eq!(settle_query(outcome), None);
    let outcome: Result<Option<BlockHash>, String> = Err("canceled".to_string());
    assert_eq!(answer_body(outcome), "Hash: None");
}

#[test]
fn resolved_hash_is_kept() {
    let outcome: Result<Option<BlockHash>, ()> = Ok(Some(counting_hash()));
    assert_eq!(settle_query(outcome), Some(counting_hash()));
    let outcome: Result<Option<BlockHash>, ()> = Ok(Some(counting_hash()));
    assert_eq!(answer_body(outcome), format!("Hash: Some({})", COUNTING_HEX));
}

#[test]
fn unchanged_result_gives_identical_bodies() {
    let first = answer_body::<()>(Ok(Some(counting_hash())));
    let second = answer_body::<()>(Ok(Some(counting_hash())));
    assert_eq!(first, second);
    let mut other = counting_hash();
    other.bytes[31] = 0x20;
    assert_ne!(first, answer_body::<()>(Ok(Some(other))));
    assert_ne!(first, answer_body::<()>(Ok(None)));
}

#[test]
fn startup_begins_connecting() {
    assert_eq!(initial_phase(), (Phase::Connecting, Action::Attempt));
}

#[test]
fn startup_retries_until_first_success() {
    let (mut phase, mut action) = initial_phase();
    let mut attempts = 0u32;
    while action == Action::Attempt {
        attempts += 1;
        let reachable = attempts > 1000;
        let next = after_handshake(phase, reachable);
        phase = next.0;
        action = next.1;
    }
    assert_eq!(attempts, 1001);
    assert_eq!(phase, Phase::Ready);
    assert_eq!(action, Action::Serve);
}

#[test]
fn ready_is_never_left() {
    assert_eq!(after_handshake(Phase::Ready, false), (Phase::Ready, Action::Serve));
    assert_eq!(after_handshake(Phase::Ready, true), (Phase::Ready, Action::Serve));
    assert_eq!(after_handshake(Phase::Connecting, false), (Phase::Connecting, Action::Attempt));
    assert_eq!(after_handshake(Phase::Connecting, true), (Phase::Ready, Action::Serve));
}
