use skynet_client::simbrief::{
    check_status, non_empty, norm_icao, norm_str, plan_from_response, request_url, stored_plan,
    SimbriefError, SimbriefPlan, SimbriefResponse,
};
use skynet_client::simulator::StoredFlightPlan;
use skynet_client::websocket::WebSocketConfig;

fn some(text: &str) -> Option<String> {
    Some(text.to_string())
}

#[test]
fn norm_icao_trims_and_upper_cases() {
    assert_eq!(norm_icao(some(" eddf ")), some("EDDF"));
    assert_eq!(norm_icao(some("KJFK")), some("KJFK"));
    assert_eq!(norm_icao(some("   ")), None);
    assert_eq!(norm_icao(some("")), None);
    assert_eq!(norm_icao(None), None);
}

#[test]
fn norm_str_trims_and_keeps_case() {
    assert_eq!(norm_str(some("  Dlh4ab\n")), some("Dlh4ab"));
    assert_eq!(norm_str(some("a  b")), some("a  b"));
    assert_eq!(norm_str(some(" \t ")), None);
    assert_eq!(norm_str(some("")), None);
    assert_eq!(norm_str(None), None);
}

#[test]
fn non_empty_drops_the_empty_text() {
    assert_eq!(non_empty(String::new()), None);
    assert_eq!(non_empty(" ".to_string()), some(" "));
}

#[test]
fn request_url_encodes_the_trimmed_username() {
    assert_eq!(
        request_url("pilot_1"),
        Ok("https://www.simbrief.com/api/xml.fetcher.php?json=1&username=pilot_1".to_string())
    );
    assert_eq!(
        request_url("  john doe "),
        Ok("https://www.simbrief.com/api/xml.fetcher.php?json=1&username=john%20doe".to_string())
    );
    assert_eq!(
        request_url("a&b=c/\u{e4}~.-"),
        Ok("https://www.simbrief.com/api/xml.fetcher.php?json=1&username=a%26b%3Dc%2F%C3%A4~.-"
            .to_string())
    );
}

#[test]
fn request_url_needs_a_username() {
    assert_eq!(request_url(""), Err(SimbriefError::UsernameRequired));
    assert_eq!(request_url("  \t"), Err(SimbriefError::UsernameRequired));
}

#[test]
fn check_status_accepts_success_codes_only() {
    assert_eq!(check_status(200), Ok(()));
    assert_eq!(check_status(204), Ok(()));
    assert_eq!(check_status(299), Ok(()));
    assert_eq!(check_status(199), Err(SimbriefError::HttpStatus(199)));
    assert_eq!(check_status(300), Err(SimbriefError::HttpStatus(300)));
    assert_eq!(check_status(404), Err(SimbriefError::HttpStatus(404)));
    assert_eq!(check_status(0), Err(SimbriefError::HttpStatus(0)));
}

#[test]
fn plan_from_response_normalises_every_field() {
    let body = SimbriefResponse {
        route: some(" DCT KONAN UL607 "),
        ofp_id: some("  "),
        created: some("1700000000"),
        aircraft_icao: some("a20n"),
        origin_icao: some(" eddf"),
        destination_icao: None,
        callsign: some(" Dlh4ab "),
    };
    assert_eq!(
        plan_from_response(" pilot ", body),
        SimbriefPlan {
            username: "pilot".to_string(),
            callsign: some("Dlh4ab"),
            aircraft_icao: some("A20N"),
            departure_icao: some("EDDF"),
            arrival_icao: None,
            route: some("DCT KONAN UL607"),
            ofp_id: None,
            created_at: some("1700000000"),
        }
    );
}

#[test]
fn stored_plan_names_its_source() {
    let plan = SimbriefPlan {
        username: "pilot".to_string(),
        callsign: some("DLH4AB"),
        aircraft_icao: some("A20N"),
        departure_icao: None,
        arrival_icao: some("LSZH"),
        route: some("DCT"),
        ofp_id: some("1"),
        created_at: None,
    };
    assert_eq!(
        stored_plan(&plan),
        StoredFlightPlan {
            callsign: some("DLH4AB"),
            aircraft_icao: some("A20N"),
            departure_icao: None,
            arrival_icao: some("LSZH"),
            route: some("DCT"),
            source: some("simbrief"),
        }
    );
    assert_eq!(
        stored_plan(&SimbriefPlan::default()),
        StoredFlightPlan { source: some("simbrief"), ..StoredFlightPlan::default() }
    );
}

#[test]
fn defaults_hold_nothing() {
    let plan = SimbriefPlan::default();
    assert_eq!(plan.username, "");
    assert_eq!(plan.callsign, None);
    assert_eq!(plan.created_at, None);
    let stored = StoredFlightPlan::default();
    assert_eq!(stored.callsign, None);
    assert_eq!(stored.source, None);
    assert_eq!(stored.duplicate(), stored);
}

#[test]
fn websocket_config_defaults_to_the_local_stream() {
    let config = WebSocketConfig::default();
    assert_eq!(config.url, "ws://localhost:3000/ws/skynet:flights");
    assert!(config.auto_reconnect);
}
