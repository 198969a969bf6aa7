use skynet_client::simulator::simconnect::{
    advance, data_definitions, decode_payload, first_step, on_dispatch, ConnectProgress,
    ConnectStep, DataDefinition, SimConnectConnection, SimConnectError, CLIENT_NAME, DEFINE_ID,
    DEFINITION_COUNT, LAYOUT_LEN, PERIOD_ONCE, PERIOD_SECOND, RECV_ID_SIMOBJECT_DATA, REQUEST_ID,
    REQUEST_ID_INIT,
};
use skynet_client::simulator::{AlreadyRunning, Measurements};

fn payload(title: &[u8], atc_id: &[u8], on_ground: u32) -> Vec<u8> {
    let mut bytes = Vec::new();
    for value in [47.5f64, -122.25, 35000.0, 100.0, 370.0, 1.0, -1200.0] {
        bytes.extend_from_slice(&value.to_le_bytes());
    }
    bytes.extend_from_slice(&on_ground.to_le_bytes());
    let mut text = title.to_vec();
    text.resize(256, 0);
    bytes.extend_from_slice(&text);
    let mut text = atc_id.to_vec();
    text.resize(256, 0);
    bytes.extend_from_slice(&text);
    bytes.resize(LAYOUT_LEN, 0);
    bytes
}

fn message(kind: u32, header_len: usize, payload: &[u8]) -> Vec<u8> {
    let mut bytes = vec![0u8; header_len];
    let size = (header_len + payload.len()) as u32;
    bytes[0..4].copy_from_slice(&size.to_le_bytes());
    bytes[4..8].copy_from_slice(&1u32.to_le_bytes());
    bytes[8..12].copy_from_slice(&kind.to_le_bytes());
    bytes.extend_from_slice(payload);
    bytes
}

#[test]
fn data_definitions_are_in_layout_order() {
    let list = data_definitions();
    assert_eq!(list.len(), DEFINITION_COUNT);
    assert_eq!(
        list,
        vec![
            DataDefinition { name: "PLANE LATITUDE", unit: "degrees", datum_type: 4 },
            DataDefinition { name: "PLANE LONGITUDE", unit: "degrees", datum_type: 4 },
            DataDefinition { name: "PLANE ALTITUDE", unit: "feet", datum_type: 4 },
            DataDefinition { name: "GROUND VELOCITY", unit: "feet per second", datum_type: 4 },
            DataDefinition { name: "PLANE HEADING DEGREES TRUE", unit: "degrees", datum_type: 4 },
            DataDefinition { name: "FUEL TOTAL QUANTITY", unit: "gallons", datum_type: 4 },
            DataDefinition { name: "VERTICAL SPEED", unit: "feet per minute", datum_type: 4 },
            DataDefinition { name: "SIM ON GROUND", unit: "bool", datum_type: 1 },
            DataDefinition { name: "TITLE", unit: "", datum_type: 8 },
            DataDefinition { name: "ATC ID", unit: "", datum_type: 8 },
        ]
    );
}

#[test]
fn simconnect_constants() {
    assert_eq!(CLIENT_NAME, "SkyNET");
    assert_eq!(DEFINE_ID, 1);
    assert_eq!(REQUEST_ID, 1);
    assert_eq!(REQUEST_ID_INIT, 2);
    assert_eq!(PERIOD_SECOND, 4);
    assert_eq!(PERIOD_ONCE, 1);
    assert_eq!(LAYOUT_LEN, 576);
}

#[test]
fn decode_payload_reads_each_value_at_its_offset() {
    let data = decode_payload(&payload(b"Boeing 737", b"n123ab", 1)).unwrap();
    assert_eq!(f64::from_bits(data.latitude), 47.5);
    assert_eq!(f64::from_bits(data.longitude), -122.25);
    assert_eq!(f64::from_bits(data.altitude), 35000.0);
    assert_eq!(f64::from_bits(data.ground_velocity_fps), 100.0);
    assert_eq!(f64::from_bits(data.heading), 370.0);
    assert_eq!(f64::from_bits(data.fuel_gallons), 1.0);
    assert_eq!(f64::from_bits(data.vertical_speed), -1200.0);
    assert_eq!(data.sim_on_ground, 1);
    assert_eq!(data.title.len(), 256);
    assert_eq!(&data.title[..11], b"Boeing 737\0");
    assert_eq!(data.atc_id.len(), 256);
    assert_eq!(&data.atc_id[..7], b"n123ab\0");
}

#[test]
fn decode_payload_refuses_a_short_payload() {
    let bytes = payload(b"x", b"y", 0);
    assert_eq!(decode_payload(&bytes[..LAYOUT_LEN - 1]), None);
    assert_eq!(decode_payload(&[]), None);
    assert!(decode_payload(&bytes).is_some());
    let mut longer = bytes.clone();
    longer.extend_from_slice(&[0xFF; 10]);
    assert_eq!(decode_payload(&longer), decode_payload(&bytes));
}

#[test]
fn on_dispatch_takes_object_data_only() {
    let body = payload(b"Airbus A320", b"dlh4ab", 0);
    let data = on_dispatch(&message(RECV_ID_SIMOBJECT_DATA, 40, &body), 40);
    assert_eq!(data, decode_payload(&body));
    assert!(data.is_some());
    assert_eq!(on_dispatch(&message(2, 40, &body), 40), None);
    assert_eq!(on_dispatch(&message(9, 40, &body), 40), None);
    assert_eq!(on_dispatch(&message(RECV_ID_SIMOBJECT_DATA, 40, &body), 41), None);
    assert_eq!(on_dispatch(&message(RECV_ID_SIMOBJECT_DATA, 40, &body[..575]), 40), None);
    assert_eq!(on_dispatch(&message(RECV_ID_SIMOBJECT_DATA, 40, &body), usize::MAX), None);
    assert_eq!(on_dispatch(&[0u8; 11], 0), None);
    assert_eq!(on_dispatch(&[], 0), None);
}

#[test]
fn set_up_goes_through_every_call() {
    let mut step = first_step();
    let mut visited = vec![step];
    loop {
        match advance(step, 0, false) {
            ConnectProgress::Next(next) => {
                step = next;
                visited.push(step);
            }
            ConnectProgress::Connected => break,
            ConnectProgress::Failed { .. } => panic!("no call failed"),
        }
    }
    let mut expected = vec![ConnectStep::Open, ConnectStep::ClearDefinition];
    for index in 0..10 {
        expected.push(ConnectStep::AddDefinition(index));
    }
    expected.push(ConnectStep::RequestEverySecond);
    expected.push(ConnectStep::RequestOnce);
    assert_eq!(visited, expected);
}

#[test]
fn set_up_reports_each_failure() {
    assert_eq!(
        advance(ConnectStep::Open, -2147467259, false),
        ConnectProgress::Failed { error: SimConnectError::OpenFailed(-2147467259), close: false }
    );
    assert_eq!(
        advance(ConnectStep::Open, 0, true),
        ConnectProgress::Failed { error: SimConnectError::OpenFailed(0), close: false }
    );
    assert_eq!(
        advance(ConnectStep::AddDefinition(3), 5, false),
        ConnectProgress::Failed { error: SimConnectError::DefinitionFailed(3, 5), close: false }
    );
    assert_eq!(
        advance(ConnectStep::RequestEverySecond, 7, false),
        ConnectProgress::Failed { error: SimConnectError::RequestFailed(7), close: true }
    );
}

#[test]
fn set_up_ignores_results_that_do_not_matter() {
    assert_eq!(
        advance(ConnectStep::ClearDefinition, -1, false),
        ConnectProgress::Next(ConnectStep::AddDefinition(0))
    );
    assert_eq!(advance(ConnectStep::RequestOnce, -1, false), ConnectProgress::Connected);
    assert_eq!(
        advance(ConnectStep::AddDefinition(9), 0, false),
        ConnectProgress::Next(ConnectStep::RequestEverySecond)
    );
    assert_eq!(
        advance(ConnectStep::AddDefinition(usize::MAX), 0, false),
        ConnectProgress::Next(ConnectStep::RequestEverySecond)
    );
    assert_eq!(
        advance(ConnectStep::AddDefinition(8), 0, true),
        ConnectProgress::Next(ConnectStep::AddDefinition(9))
    );
}

#[test]
fn simconnect_flight_data_normalises_identity() {
    let record = decode_payload(&payload(b"  boeing 737-800 ", b"n123ab", 0)).unwrap();
    let measurements = Measurements {
        latitude: record.latitude,
        longitude: record.longitude,
        altitude: record.altitude,
        ground_speed: 59.2484f64.to_bits(),
        heading: 10.0f64.to_bits(),
        fuel_kg: 3.028328f64.to_bits(),
        vertical_speed: record.vertical_speed,
    };
    let data = SimConnectConnection::flight_data(&record, measurements, 1431648000, 250_000_000).unwrap();
    assert_eq!(data.callsign, "N123AB");
    assert_eq!(data.aircraft_icao, "BOEI");
    assert_eq!(data.departure_icao, "");
    assert_eq!(data.arrival_icao, "");
    assert_eq!(f64::from_bits(data.ground_speed), 59.2484);
    assert_eq!(f64::from_bits(data.vertical_speed), -1200.0);
    assert!(!data.on_ground);
    assert_eq!(data.timestamp, "2015-05-15T00:00:00.250+00:00");
    let empty = decode_payload(&payload(b"", b"   ", 2)).unwrap();
    let data = SimConnectConnection::flight_data(&empty, measurements, 0, 0).unwrap();
    assert_eq!(data.callsign, "UNKNOWN");
    assert_eq!(data.aircraft_icao, "UNKN");
    assert!(data.on_ground);
}

#[test]
fn simconnect_connection_lifecycle() {
    let mut client = SimConnectConnection::new();
    assert_eq!(client, SimConnectConnection::default());
    assert!(!client.is_connected());
    assert_eq!(
        client.connect(Err(SimConnectError::RequestFailed(1))),
        Err(SimConnectError::RequestFailed(1))
    );
    assert!(!client.is_connected());
    assert_eq!(client.connect(Ok(())), Ok(()));
    assert!(client.is_connected());
    assert_eq!(client.start(), Ok(()));
    assert_eq!(client.start(), Err(AlreadyRunning));
    assert!(client.is_running());
    client.stop();
    client.stop();
    assert!(!client.is_running());
    assert!(client.is_connected());
    assert_eq!(client.start(), Ok(()));
    client.disconnect();
    assert!(!client.is_running());
    assert!(!client.is_connected());
}
