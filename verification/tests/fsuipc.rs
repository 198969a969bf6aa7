use skynet_client::simulator::fsuipc::{
    decode_area, place, read_table, stage, FsuipcConnection, FsuipcData, FsuipcError, ReadField,
    FIELD_COUNT, STAGING_LEN,
};
use skynet_client::simulator::fsuipc_user64::{Delivery, IpcError, OpenStep, UserSession64};
use skynet_client::simulator::{AlreadyRunning, Measurements};

fn answer(values: &[Vec<u8>]) -> Vec<u8> {
    let mut block = Vec::new();
    for (field, value) in read_table().iter().zip(values) {
        block.extend_from_slice(&1u32.to_le_bytes());
        block.extend_from_slice(&(field.offset as u32).to_le_bytes());
        block.extend_from_slice(&(value.len() as u32).to_le_bytes());
        block.extend_from_slice(&field.dest.to_le_bytes());
        block.extend_from_slice(value);
    }
    block.extend_from_slice(&[0, 0, 0, 0]);
    block
}

fn padded(text: &[u8], len: usize) -> Vec<u8> {
    let mut buffer = text.to_vec();
    buffer.resize(len, 0);
    buffer
}

fn sample_values() -> Vec<Vec<u8>> {
    vec![
        47.5f64.to_le_bytes().to_vec(),
        (-122.25f64).to_le_bytes().to_vec(),
        35000.0f64.to_le_bytes().to_vec(),
        65536u32.to_le_bytes().to_vec(),
        370.0f64.to_le_bytes().to_vec(),
        1.0f32.to_le_bytes().to_vec(),
        (-256i16).to_le_bytes().to_vec(),
        1u32.to_le_bytes().to_vec(),
        padded(b"b738 winglets", 24),
        padded(b" n123ab", 12),
    ]
}

fn zero_measurements() -> Measurements {
    Measurements {
        latitude: 0,
        longitude: 0,
        altitude: 0,
        ground_speed: 0,
        heading: 0,
        fuel_kg: 0,
        vertical_speed: 0,
    }
}

#[test]
fn read_table_holds_the_fixed_offsets() {
    assert_eq!(FIELD_COUNT, 10);
    assert_eq!(
        read_table(),
        vec![
            ReadField { offset: 0x0560, len: 8, dest: 0 },
            ReadField { offset: 0x0568, len: 8, dest: 8 },
            ReadField { offset: 0x0570, len: 8, dest: 16 },
            ReadField { offset: 0x02B4, len: 4, dest: 24 },
            ReadField { offset: 0x0578, len: 8, dest: 28 },
            ReadField { offset: 0x0AF4, len: 4, dest: 36 },
            ReadField { offset: 0x02C8, len: 2, dest: 40 },
            ReadField { offset: 0x0366, len: 4, dest: 42 },
            ReadField { offset: 0x3160, len: 24, dest: 46 },
            ReadField { offset: 0x3D00, len: 12, dest: 70 },
        ]
    );
    let widths: usize = read_table().iter().map(|f| f.len).sum();
    assert_eq!(widths, STAGING_LEN);
}

#[test]
fn request_reads_writes_one_record_per_field() {
    let mut session = UserSession64::new();
    assert_eq!(FsuipcConnection::request_reads(&mut session), Ok(()));
    let request = session.seal().unwrap();
    assert_eq!(request.len(), 286);
    assert_eq!(
        &request[..28],
        &[
            1, 0, 0, 0, 0x60, 0x05, 0, 0, 8, 0, 0, 0, 0, 0, 0, 0, 0, 0, 0, 0, 0, 0, 0, 0, 0, 0, 0,
            0
        ]
    );
    assert_eq!(
        &request[250..270],
        &[1, 0, 0, 0, 0x00, 0x3D, 0, 0, 12, 0, 0, 0, 70, 0, 0, 0, 0, 0, 0, 0]
    );
    assert_eq!(&request[282..], &[0, 0, 0, 0]);
    assert_eq!(request, answer(&read_table().iter().map(|f| vec![0u8; f.len]).collect::<Vec<_>>()));
}

#[test]
fn request_reads_fails_in_a_session_without_room() {
    let mut session = UserSession64::new();
    assert_eq!(session.read_bytes(0, 0, 65536 - 20 - 281), Ok(()));
    assert_eq!(FsuipcConnection::request_reads(&mut session), Err(IpcError::WriteZero));
    assert_eq!(session.seal(), Err(IpcError::WriteZero));
    let mut exact = UserSession64::new();
    assert_eq!(exact.read_bytes(0, 0, 65536 - 20 - 282), Ok(()));
    assert_eq!(FsuipcConnection::request_reads(&mut exact), Ok(()));
    assert_eq!(exact.seal(), Err(IpcError::WriteZero));
}

#[test]
fn read_flight_data_decodes_every_field() {
    let block = answer(&sample_values());
    let data = FsuipcConnection::read_flight_data(1, &block).unwrap();
    assert_eq!(f64::from_bits(data.latitude), 47.5);
    assert_eq!(f64::from_bits(data.longitude), -122.25);
    assert_eq!(f64::from_bits(data.altitude), 35000.0);
    assert_eq!(data.ground_speed_raw, 65536);
    assert_eq!(f64::from_bits(data.heading), 370.0);
    assert_eq!(f32::from_bits(data.fuel_gallons), 1.0);
    assert_eq!(data.vertical_speed_raw, -256);
    assert_eq!(data.on_ground_flag, 1);
    assert_eq!(data.aircraft_type, padded(b"b738 winglets", 24));
    assert_eq!(data.atc_id, padded(b" n123ab", 12));
}

#[test]
fn read_flight_data_of_an_unanswered_request_is_all_zero() {
    let mut session = UserSession64::new();
    assert_eq!(FsuipcConnection::request_reads(&mut session), Ok(()));
    let request = session.seal().unwrap();
    assert_eq!(
        FsuipcConnection::read_flight_data(1, &request),
        Ok(FsuipcData {
            latitude: 0,
            longitude: 0,
            altitude: 0,
            ground_speed_raw: 0,
            heading: 0,
            fuel_gallons: 0,
            vertical_speed_raw: 0,
            on_ground_flag: 0,
            aircraft_type: vec![0; 24],
            atc_id: vec![0; 12],
        })
    );
}

#[test]
fn read_flight_data_discards_a_failed_tick() {
    let block = answer(&sample_values());
    assert_eq!(
        FsuipcConnection::read_flight_data(0, &block),
        Err(FsuipcError::Session(IpcError::Rejected(0)))
    );
    assert_eq!(
        FsuipcConnection::read_flight_data(1, &block[..block.len() - 4]),
        Err(FsuipcError::Session(IpcError::UnexpectedEof))
    );
    let mut odd = block.clone();
    odd[28] = 7;
    assert_eq!(
        FsuipcConnection::read_flight_data(1, &odd),
        Err(FsuipcError::Session(IpcError::UnexpectedMessage(7)))
    );
    let mut stray = block.clone();
    stray[12] = 80;
    assert_eq!(
        FsuipcConnection::read_flight_data(1, &stray),
        Err(FsuipcError::StrayDelivery { target: 80, len: 8 })
    );
}

#[test]
fn place_copies_inside_the_area_only() {
    let mut area = vec![0u8; 6];
    assert!(place(&mut area, &Delivery { target: 2, data: vec![1, 2, 3] }));
    assert_eq!(area, vec![0, 0, 1, 2, 3, 0]);
    assert!(place(&mut area, &Delivery { target: 6, data: vec![] }));
    assert!(place(&mut area, &Delivery { target: 5, data: vec![9] }));
    assert_eq!(area, vec![0, 0, 1, 2, 3, 9]);
    assert!(!place(&mut area, &Delivery { target: 5, data: vec![7, 7] }));
    assert!(!place(&mut area, &Delivery { target: 7, data: vec![] }));
    assert!(!place(&mut area, &Delivery { target: u64::MAX, data: vec![1] }));
    assert_eq!(area, vec![0, 0, 1, 2, 3, 9]);
}

#[test]
fn stage_applies_deliveries_in_order() {
    let area = stage(&vec![
        Delivery { target: 0, data: vec![1, 1, 1] },
        Delivery { target: 1, data: vec![2] },
        Delivery { target: 81, data: vec![3] },
    ])
    .unwrap();
    assert_eq!(area.len(), STAGING_LEN);
    assert_eq!(&area[..4], &[1, 2, 1, 0]);
    assert_eq!(area[81], 3);
    assert_eq!(stage(&vec![]), Ok(vec![0; 82]));
    assert_eq!(
        stage(&vec![
            Delivery { target: 0, data: vec![1] },
            Delivery { target: 82, data: vec![3] },
            Delivery { target: 90, data: vec![] },
        ]),
        Err(FsuipcError::StrayDelivery { target: 82, len: 1 })
    );
}

#[test]
fn decode_area_reads_signed_vertical_speed() {
    let mut area = vec![0u8; 82];
    area[40] = 0x00;
    area[41] = 0x01;
    assert_eq!(decode_area(&area).unwrap().vertical_speed_raw, 256);
    area[40] = 0xFF;
    area[41] = 0xFF;
    assert_eq!(decode_area(&area).unwrap().vertical_speed_raw, -1);
    area[24..28].copy_from_slice(&0xFFFF_FFFFu32.to_le_bytes());
    assert_eq!(decode_area(&area).unwrap().ground_speed_raw, u32::MAX);
    assert_eq!(decode_area(&area[..81]), None);
    assert_eq!(decode_area(&[]), None);
}

#[test]
fn fsuipc_flight_data_normalises_identity() {
    let record = FsuipcConnection::read_flight_data(1, &answer(&sample_values())).unwrap();
    let measurements = Measurements {
        latitude: 47.5f64.to_bits(),
        longitude: (-122.25f64).to_bits(),
        altitude: 35000.0f64.to_bits(),
        ground_speed: 1.94384f64.to_bits(),
        heading: 10.0f64.to_bits(),
        fuel_kg: 3.028328f64.to_bits(),
        vertical_speed: (-1.0f64).to_bits(),
    };
    let data = FsuipcConnection::flight_data(&record, measurements, 1431648000, 0).unwrap();
    assert_eq!(data.callsign, "N123AB");
    assert_eq!(data.aircraft_icao, "B738");
    assert_eq!(data.departure_icao, "");
    assert_eq!(data.arrival_icao, "");
    assert_eq!(f64::from_bits(data.latitude), 47.5);
    assert_eq!(f64::from_bits(data.longitude), -122.25);
    assert_eq!(f64::from_bits(data.altitude), 35000.0);
    assert_eq!(f64::from_bits(data.ground_speed), 1.94384);
    assert_eq!(f64::from_bits(data.heading), 10.0);
    assert_eq!(f64::from_bits(data.fuel_kg), 3.028328);
    assert_eq!(f64::from_bits(data.vertical_speed), -1.0);
    assert!(data.on_ground);
    assert_eq!(data.timestamp, "2015-05-15T00:00:00+00:00");
    assert_eq!(FsuipcConnection::flight_data(&record, measurements, i64::MIN, 0), None);
}

#[test]
fn fsuipc_flight_data_substitutes_placeholders() {
    let record = decode_area(&vec![0u8; 82]).unwrap();
    let data = FsuipcConnection::flight_data(&record, zero_measurements(), 0, 0).unwrap();
    assert_eq!(data.callsign, "UNKNOWN");
    assert_eq!(data.aircraft_icao, "UNKN");
    assert!(!data.on_ground);
    assert_eq!(data.timestamp, "1970-01-01T00:00:00+00:00");
}

#[test]
fn fsuipc_connection_lifecycle() {
    let mut client = FsuipcConnection::new();
    assert_eq!(client, FsuipcConnection::default());
    assert!(!client.is_connected());
    assert!(!client.is_running());
    assert_eq!(
        client.connect(Err(IpcError::ConnectionRefused(OpenStep::FindWindow))),
        Err(IpcError::ConnectionRefused(OpenStep::FindWindow))
    );
    assert!(!client.is_connected());
    assert_eq!(client.connect(Ok(())), Ok(()));
    assert!(client.is_connected());
    assert_eq!(client.start(), Ok(()));
    assert!(client.is_running());
    assert_eq!(client.start(), Err(AlreadyRunning));
    assert!(client.is_running());
    client.stop();
    assert!(!client.is_running());
    assert!(client.is_connected());
    client.stop();
    assert!(!client.is_running());
    assert_eq!(client.start(), Ok(()));
    client.disconnect();
    assert!(!client.is_running());
    assert!(!client.is_connected());
    client.disconnect();
    assert!(!client.is_connected());
}
