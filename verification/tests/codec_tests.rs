use sage_core::codec::decode;
use sage_core::codec::encode;
use sage_core::codec::DecodeError;
use sage_core::privileges::PrivilegePoint;
use sage_core::state::State;

const INITIAL_JSON: &str = "{\"privileges\":{\"concurrent_fleets\":1,\"fleet_size\":1,\"crafting_capacity\":1,\"starpath_pass\":0.0,\"expedited_rescue\":0.0},\"privilege_points\":[\"ConcurrentFleets\",\"FleetSize\",\"CraftingCapacity\"]}";

fn b64(s: &str) -> String {
    base64::Engine::encode(&base64::engine::general_purpose::URL_SAFE, s.as_bytes())
}

fn token_of_json(json: &str) -> String {
    b64(&hex::encode(json))
}

#[test]
fn token_of_initial_state_is_layered_exactly() {
    let s = State::default();
    let token = s.council_rank_base64_url_safe();
    assert_eq!(token, token_of_json(INITIAL_JSON));
}

#[test]
fn round_trip_initial_state() {
    let s = State::default();
    let token = s.council_rank_base64_url_safe();
    let rank = decode(&token).expect("the token of a fresh build must decode");
    assert_eq!(&rank.privileges, s.council_rank_privileges());
    assert_eq!(&rank.privilege_points, s.council_rank_privilege_points());
}

#[test]
fn round_trip_after_two_hundred_assignments() {
    let mut s = State::default();
    let order = [
        PrivilegePoint::ConcurrentFleets,
        PrivilegePoint::FleetSize,
        PrivilegePoint::CraftingCapacity,
        PrivilegePoint::StarpathPass,
        PrivilegePoint::ExpeditedRescue,
    ];
    for k in 0..200 {
        s.add_privilege_point(order[k % order.len()]);
    }
    let token = s.council_rank_base64_url_safe();
    let rank = decode(&token).expect("the token of a reachable build must decode");
    assert_eq!(&rank.privileges, s.council_rank_privileges());
    assert_eq!(&rank.privilege_points, s.council_rank_privilege_points());
}

#[test]
fn round_trip_through_encode_of_decoded_value() {
    let mut s = State::default();
    for _ in 0..5 {
        s.add_privilege_point(PrivilegePoint::StarpathPass);
        s.add_privilege_point(PrivilegePoint::CraftingCapacity);
    }
    let token = s.council_rank_base64_url_safe();
    let rank = decode(&token).unwrap();
    let token_again = encode(&rank);
    assert_eq!(token, token_again);
}

#[test]
fn half_fraction_renders_and_round_trips() {
    let mut s = State::default();
    s.add_privilege_point(PrivilegePoint::StarpathPass);
    s.add_privilege_point(PrivilegePoint::StarpathPass);
    s.add_privilege_point(PrivilegePoint::StarpathPass);
    let expected_json = INITIAL_JSON
        .replace("\"starpath_pass\":0.0", "\"starpath_pass\":1.5")
        .replace(
            "\"CraftingCapacity\"]",
            "\"CraftingCapacity\",\"StarpathPass\",\"StarpathPass\",\"StarpathPass\"]",
        );
    let token = s.council_rank_base64_url_safe();
    assert_eq!(token, token_of_json(&expected_json));
    let rank = decode(&token).unwrap();
    assert_eq!(rank.privileges.starpath_pass_halves, 3);
    assert_eq!(&rank.privilege_points, s.council_rank_privilege_points());
}

#[test]
fn corrupted_last_base64_char_is_invalid_base64() {
    let s = State::default();
    let mut token = s.council_rank_base64_url_safe();
    token.pop();
    token.push('!');
    assert_eq!(decode(&token).unwrap_err(), DecodeError::InvalidBase64);
}

#[test]
fn odd_length_hex_is_invalid_hex() {
    let token = b64("abc");
    assert_eq!(decode(&token).unwrap_err(), DecodeError::InvalidHex);
}

#[test]
fn non_hex_character_is_invalid_hex() {
    let token = b64("7b7dzz");
    assert_eq!(decode(&token).unwrap_err(), DecodeError::InvalidHex);
}

#[test]
fn non_text_base64_payload_is_invalid_utf8_after_base64() {
    let raw: [u8; 2] = [0xff, 0xfe];
    let token = base64::Engine::encode(&base64::engine::general_purpose::URL_SAFE, raw);
    assert_eq!(decode(&token).unwrap_err(), DecodeError::InvalidUtf8AfterBase64);
}

#[test]
fn non_text_hex_payload_is_invalid_utf8_after_hex() {
    let token = b64("ff");
    assert_eq!(decode(&token).unwrap_err(), DecodeError::InvalidUtf8AfterHex);
}

#[test]
fn empty_object_is_invalid_structure() {
    let token = token_of_json("{}");
    assert_eq!(decode(&token).unwrap_err(), DecodeError::InvalidStructure);
}

#[test]
fn non_canonical_fraction_is_invalid_structure() {
    let json = INITIAL_JSON.replace("\"starpath_pass\":0.0", "\"starpath_pass\":3.7");
    let token = token_of_json(&json);
    assert_eq!(decode(&token).unwrap_err(), DecodeError::InvalidStructure);
}

#[test]
fn decode_accepts_any_syntactically_valid_values() {
    let json = INITIAL_JSON.replace(
        "\"concurrent_fleets\":1",
        "\"concurrent_fleets\":9999",
    );
    let token = token_of_json(&json);
    let rank = decode(&token).expect("a well-shaped token is accepted as it is");
    assert_eq!(rank.privileges.concurrent_fleets, 9999);
}

#[test]
fn empty_history_round_trips() {
    let json = INITIAL_JSON.replace(
        "[\"ConcurrentFleets\",\"FleetSize\",\"CraftingCapacity\"]",
        "[]",
    );
    let token = token_of_json(&json);
    let rank = decode(&token).unwrap();
    assert!(rank.privilege_points.is_empty());
    assert_eq!(encode(&rank), token);
}

#[test]
fn load_replaces_state_wholesale() {
    let mut donor = State::default();
    donor.add_privilege_point(PrivilegePoint::ExpeditedRescue);
    donor.add_privilege_point(PrivilegePoint::FleetSize);
    let token = donor.council_rank_base64_url_safe();

    let mut s = State::default();
    s.add_privilege_point(PrivilegePoint::CraftingCapacity);
    let loaded = s.load_council_rank_from_base64_url_safe(token);
    assert_eq!(loaded, Ok(()));
    assert_eq!(s.council_rank_privileges(), donor.council_rank_privileges());
    assert_eq!(
        s.council_rank_privilege_points(),
        donor.council_rank_privilege_points()
    );
}

#[test]
fn failed_load_keeps_last_valid_state() {
    let mut s = State::default();
    s.add_privilege_point(PrivilegePoint::StarpathPass);
    let before_privileges = *s.council_rank_privileges();
    let before_points = s.council_rank_privilege_points().clone();
    let outcome = s.load_council_rank_from_base64_url_safe(String::from("not a token!"));
    assert_eq!(outcome, Err(DecodeError::InvalidBase64));
    assert_eq!(s.council_rank_privileges(), &before_privileges);
    assert_eq!(s.council_rank_privilege_points(), &before_points);
}

#[test]
fn token_is_printable_base64_of_hex() {
    let s = State::default();
    let token = s.council_rank_base64_url_safe();
    assert!(token
        .chars()
        .all(|c| c.is_ascii_alphanumeric() || c == '-' || c == '_' || c == '='));
    let hex_layer = base64::Engine::decode(
        &base64::engine::general_purpose::URL_SAFE,
        token.as_bytes(),
    )
    .unwrap();
    let hex_text = String::from_utf8(hex_layer).unwrap();
    let json_bytes = hex::decode(&hex_text).unwrap();
    assert_eq!(String::from_utf8(json_bytes).unwrap(), INITIAL_JSON);
}
