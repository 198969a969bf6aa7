use skynet_client::simulator::fsuipc::FsuipcConnection;
use skynet_client::simulator::simconnect::SimConnectConnection;
use skynet_client::simulator::xpuipc::XpuipcConnection;
use skynet_client::simulator::{
    Client, FlightData, Measurements, SimulatorConnection, SimulatorError, SimulatorStatus,
    SimulatorType, StoredFlightPlan, Transport,
};

fn connected(transport: Transport) -> Client {
    match transport {
        Transport::Fsuipc => {
            let mut client = FsuipcConnection::new();
            assert_eq!(client.connect(Ok(())), Ok(()));
            Client::Fsuipc(client)
        }
        Transport::SimConnect => {
            let mut client = SimConnectConnection::new();
            assert_eq!(client.connect(Ok(())), Ok(()));
            Client::SimConnect(client)
        }
        Transport::Xpuipc => {
            let mut client = XpuipcConnection::new(49000);
            assert_eq!(client.connect(Ok(())), Ok(()));
            Client::Xpuipc(client)
        }
    }
}

fn connect(manager: &mut SimulatorConnection, sim_type: SimulatorType) {
    let selection = manager.connect(sim_type);
    let transport = selection.open.unwrap();
    assert!(manager.install(connected(transport)));
}

fn idle_status() -> SimulatorStatus {
    SimulatorStatus {
        simulator_type: None,
        simulator_selected: false,
        fsuipc_connected: false,
        simconnect_connected: false,
        xpuipc_connected: false,
        data_running: false,
    }
}

#[test]
fn new_manager_is_idle() {
    let manager = SimulatorConnection::new(true);
    assert!(!manager.is_connected());
    assert_eq!(manager.get_simulator_type(), None);
    assert_eq!(manager.get_flight_plan(), None);
    assert_eq!(manager.get_status(), idle_status());
}

#[test]
fn simulator_types_map_to_transports() {
    assert_eq!(SimulatorType::MSFS.transport(), Transport::SimConnect);
    assert_eq!(SimulatorType::FSX.transport(), Transport::Fsuipc);
    assert_eq!(SimulatorType::P3D.transport(), Transport::Fsuipc);
    assert_eq!(SimulatorType::XPLANE.transport(), Transport::Xpuipc);
    assert!(Transport::Xpuipc.is_supported(false));
    assert!(Transport::Xpuipc.is_supported(true));
    assert!(!Transport::Fsuipc.is_supported(false));
    assert!(Transport::Fsuipc.is_supported(true));
    assert!(!Transport::SimConnect.is_supported(false));
    assert!(Transport::SimConnect.is_supported(true));
}

#[test]
fn connect_names_the_transport_to_open() {
    let mut manager = SimulatorConnection::new(true);
    let selection = manager.connect(SimulatorType::MSFS);
    assert_eq!(selection.released, None);
    assert_eq!(selection.open, Ok(Transport::SimConnect));
    assert!(manager.is_connected());
    assert_eq!(manager.get_simulator_type(), Some(SimulatorType::MSFS));
    assert_eq!(
        manager.get_status(),
        SimulatorStatus {
            simulator_type: Some(SimulatorType::MSFS),
            simulator_selected: true,
            ..idle_status()
        }
    );
    assert_eq!(manager.connect(SimulatorType::P3D).open, Ok(Transport::Fsuipc));
    assert_eq!(manager.connect(SimulatorType::XPLANE).open, Ok(Transport::Xpuipc));
}

#[test]
fn connect_refuses_windows_transports_elsewhere() {
    let mut manager = SimulatorConnection::new(false);
    assert_eq!(
        manager.connect(SimulatorType::MSFS).open,
        Err(SimulatorError::UnsupportedPlatform(Transport::SimConnect))
    );
    assert_eq!(manager.get_simulator_type(), Some(SimulatorType::MSFS));
    assert!(!manager.install(connected(Transport::SimConnect)));
    assert!(!manager.get_status().simconnect_connected);
    assert_eq!(
        manager.start(),
        Err(SimulatorError::UnsupportedPlatform(Transport::SimConnect))
    );
    assert_eq!(
        manager.connect(SimulatorType::FSX).open,
        Err(SimulatorError::UnsupportedPlatform(Transport::Fsuipc))
    );
    assert!(!manager.install(connected(Transport::Fsuipc)));
    assert_eq!(manager.start(), Err(SimulatorError::NotConnected(Transport::Fsuipc)));
    assert_eq!(manager.connect(SimulatorType::XPLANE).open, Ok(Transport::Xpuipc));
    assert!(manager.install(connected(Transport::Xpuipc)));
    assert_eq!(manager.start(), Ok(()));
}

#[test]
fn install_takes_only_the_selected_simulators_client() {
    let mut manager = SimulatorConnection::new(true);
    assert!(!manager.install(connected(Transport::Xpuipc)));
    assert_eq!(manager.get_status(), idle_status());
    assert_eq!(manager.connect(SimulatorType::XPLANE).open, Ok(Transport::Xpuipc));
    assert!(!manager.install(connected(Transport::Fsuipc)));
    assert!(!manager.install(Client::new(Transport::Xpuipc)));
    let mut polling = connected(Transport::Xpuipc);
    assert_eq!(polling.start(), Ok(()));
    assert!(!manager.install(polling));
    assert!(!manager.get_status().xpuipc_connected);
    assert!(manager.install(connected(Transport::Xpuipc)));
    assert!(manager.get_status().xpuipc_connected);
    assert!(!manager.install(connected(Transport::Xpuipc)));
}

#[test]
fn single_active_transport() {
    let kinds =
        [SimulatorType::MSFS, SimulatorType::FSX, SimulatorType::P3D, SimulatorType::XPLANE];
    for first in kinds {
        for second in kinds {
            let mut manager = SimulatorConnection::new(true);
            connect(&mut manager, first);
            assert_eq!(manager.start(), Ok(()));
            let selection = manager.connect(second);
            let released = selection.released.unwrap();
            assert_eq!(released.transport(), first.transport());
            assert!(!released.is_running());
            assert!(manager.install(connected(selection.open.unwrap())));
            let status = manager.get_status();
            assert_eq!(status.simulator_type, Some(second));
            assert!(status.simulator_selected);
            assert!(!status.data_running);
            let flags =
                [status.fsuipc_connected, status.simconnect_connected, status.xpuipc_connected];
            assert_eq!(flags.iter().filter(|flag| **flag).count(), 1);
            assert_eq!(status.fsuipc_connected, second.transport() == Transport::Fsuipc);
            assert_eq!(status.simconnect_connected, second.transport() == Transport::SimConnect);
            assert_eq!(status.xpuipc_connected, second.transport() == Transport::Xpuipc);
        }
    }
}

#[test]
fn start_needs_a_connected_simulator() {
    let mut manager = SimulatorConnection::new(true);
    assert_eq!(manager.start(), Err(SimulatorError::NoSimulator));
    assert_eq!(manager.connect(SimulatorType::FSX).open, Ok(Transport::Fsuipc));
    assert_eq!(manager.start(), Err(SimulatorError::NotConnected(Transport::Fsuipc)));
    assert_eq!(manager.connect(SimulatorType::MSFS).open, Ok(Transport::SimConnect));
    assert_eq!(manager.start(), Err(SimulatorError::NotConnected(Transport::SimConnect)));
    assert_eq!(manager.connect(SimulatorType::XPLANE).open, Ok(Transport::Xpuipc));
    assert_eq!(manager.start(), Err(SimulatorError::NotConnected(Transport::Xpuipc)));
    assert!(!manager.get_status().data_running);
}

#[test]
fn start_twice_is_already_running() {
    let mut manager = SimulatorConnection::new(true);
    connect(&mut manager, SimulatorType::P3D);
    assert_eq!(manager.start(), Ok(()));
    assert!(manager.get_status().data_running);
    assert_eq!(manager.start(), Err(SimulatorError::AlreadyRunning));
    assert!(manager.get_status().data_running);
    manager.stop();
    assert_eq!(manager.start(), Ok(()));
}

#[test]
fn idempotent_stop() {
    let mut manager = SimulatorConnection::new(true);
    manager.stop();
    assert_eq!(manager.get_status(), idle_status());
    connect(&mut manager, SimulatorType::XPLANE);
    manager.stop();
    assert!(!manager.get_status().data_running);
    assert_eq!(manager.start(), Ok(()));
    manager.stop();
    let once = manager.get_status();
    assert!(!once.data_running);
    assert!(once.xpuipc_connected);
    manager.stop();
    assert_eq!(manager.get_status(), once);
}

#[test]
fn disconnect_returns_to_idle() {
    let mut manager = SimulatorConnection::new(true);
    assert_eq!(manager.disconnect(), None);
    connect(&mut manager, SimulatorType::FSX);
    assert_eq!(manager.start(), Ok(()));
    let released = manager.disconnect().unwrap();
    assert_eq!(released, connected(Transport::Fsuipc));
    assert_eq!(manager.get_status(), idle_status());
    assert!(!manager.is_connected());
    assert_eq!(manager.disconnect(), None);
    assert_eq!(manager.start(), Err(SimulatorError::NoSimulator));
}

#[test]
fn flight_plan_is_stored_and_cleared() {
    let mut manager = SimulatorConnection::new(false);
    let plan = StoredFlightPlan {
        callsign: Some("DLH4AB".to_string()),
        aircraft_icao: Some("A320".to_string()),
        departure_icao: Some("EDDF".to_string()),
        arrival_icao: None,
        route: Some("DCT".to_string()),
        source: Some("simbrief".to_string()),
    };
    manager.set_flight_plan(Some(plan.clone()));
    assert_eq!(manager.get_flight_plan(), Some(plan.clone()));
    connect(&mut manager, SimulatorType::XPLANE);
    manager.disconnect();
    assert_eq!(manager.get_flight_plan(), Some(plan));
    manager.set_flight_plan(None);
    assert_eq!(manager.get_flight_plan(), None);
}

#[test]
fn manager_applies_the_overlay_with_its_plan() {
    let mut manager = SimulatorConnection::new(true);
    let measurements = Measurements {
        latitude: 1,
        longitude: 2,
        altitude: 3,
        ground_speed: 4,
        heading: 5,
        fuel_kg: 6,
        vertical_speed: 7,
    };
    let data = FlightData::assemble(
        "UNKNOWN".to_string(),
        "UNKN".to_string(),
        measurements,
        false,
        "t".to_string(),
    );
    assert_eq!(manager.enrich(data.clone()), data);
    manager.set_flight_plan(Some(StoredFlightPlan {
        callsign: Some("DLH4AB".to_string()),
        aircraft_icao: Some("A320N".to_string()),
        departure_icao: Some("EDDF".to_string()),
        arrival_icao: Some("LSZH".to_string()),
        route: None,
        source: None,
    }));
    let out = manager.enrich(data);
    assert_eq!(out.callsign, "DLH4AB");
    assert_eq!(out.aircraft_icao, "A320");
    assert_eq!(out.departure_icao, "EDDF");
    assert_eq!(out.arrival_icao, "LSZH");
    assert_eq!(
        (out.latitude, out.longitude, out.altitude, out.ground_speed),
        (1, 2, 3, 4)
    );
    assert_eq!((out.heading, out.fuel_kg, out.vertical_speed), (5, 6, 7));
    assert!(!out.on_ground);
    assert_eq!(out.timestamp, "t");
}

#[test]
fn capture_stamps_the_instant() {
    let measurements = Measurements {
        latitude: 0,
        longitude: 0,
        altitude: 0,
        ground_speed: 0,
        heading: 0,
        fuel_kg: 0,
        vertical_speed: 0,
    };
    let data =
        FlightData::capture("A".to_string(), "B".to_string(), measurements, true, 1431648000, 0)
            .unwrap();
    assert_eq!(data.timestamp, "2015-05-15T00:00:00+00:00");
    assert_eq!(data.callsign, "A");
    assert_eq!(data.aircraft_icao, "B");
    assert!(data.on_ground);
    let data = FlightData::capture(
        "A".to_string(),
        "B".to_string(),
        measurements,
        false,
        0,
        500_000_000,
    )
    .unwrap();
    assert_eq!(data.timestamp, "1970-01-01T00:00:00.500+00:00");
    assert_eq!(
        FlightData::capture("A".to_string(), "B".to_string(), measurements, true, i64::MAX, 0),
        None
    );
    assert_eq!(
        FlightData::capture("A".to_string(), "B".to_string(), measurements, true, 0, u32::MAX),
        None
    );
}
