//! Simulator transports, the telemetry they produce, and the manager that
//! owns one transport at a time.

pub mod fsuipc;
pub mod fsuipc_user64;
pub mod overlay;
pub mod simconnect;
pub mod xpuipc;

use crate::simulator::fsuipc::FsuipcConnection;
use crate::simulator::overlay::{enrich, enriched};
use crate::simulator::simconnect::SimConnectConnection;
use crate::simulator::xpuipc::XpuipcConnection;
use crate::text::same_text;
use vstd::prelude::*;

verus! {

/// The simulator families that can be connected.
#[derive(Debug, Clone, Copy, PartialEq, Eq, Structural)]
pub enum SimulatorType {
    MSFS,
    FSX,
    P3D,
    XPLANE,
}

/// A flight plan kept for filling what telemetry leaves open. Every field is
/// optional.
#[derive(Debug, Clone, PartialEq, Eq)]
pub struct StoredFlightPlan {
    pub callsign: Option<String>,
    pub aircraft_icao: Option<String>,
    pub departure_icao: Option<String>,
    pub arrival_icao: Option<String>,
    pub route: Option<String>,
    pub source: Option<String>,
}

/// A flight plan as the texts it holds.
pub struct StoredFlightPlanView {
    pub callsign: Option<Seq<char>>,
    pub aircraft_icao: Option<Seq<char>>,
    pub departure_icao: Option<Seq<char>>,
    pub arrival_icao: Option<Seq<char>>,
    pub route: Option<Seq<char>>,
    pub source: Option<Seq<char>>,
}

/// An optional string as the text it holds.
pub open spec fn text_of(field: Option<String>) -> Option<Seq<char>> {
    match field {
        Some(s) => Some(s@),
        None => None,
    }
}

impl View for StoredFlightPlan {
    type V = StoredFlightPlanView;

    open spec fn view(&self) -> StoredFlightPlanView {
        StoredFlightPlanView {
            callsign: text_of(self.callsign),
            aircraft_icao: text_of(self.aircraft_icao),
            departure_icao: text_of(self.departure_icao),
            arrival_icao: text_of(self.arrival_icao),
            route: text_of(self.route),
            source: text_of(self.source),
        }
    }
}

impl Default for StoredFlightPlan {
    /// The plan that holds nothing.
    fn default() -> (plan: Self)
        ensures
            plan.callsign is None,
            plan.aircraft_icao is None,
            plan.departure_icao is None,
            plan.arrival_icao is None,
            plan.route is None,
            plan.source is None,
    {
        StoredFlightPlan {
            callsign: None,
            aircraft_icao: None,
            departure_icao: None,
            arrival_icao: None,
            route: None,
            source: None,
        }
    }
}

/// The seven measurements of a snapshot. Each is the bit pattern of an IEEE
/// 754 double: the library carries the numbers, it does not compute on them.
#[derive(Debug, Clone, Copy, PartialEq, Eq)]
pub struct Measurements {
    /// Degrees.
    pub latitude: u64,
    /// Degrees.
    pub longitude: u64,
    /// Feet.
    pub altitude: u64,
    /// Knots, not negative.
    pub ground_speed: u64,
    /// Degrees.
    pub heading: u64,
    /// Kilograms, not negative.
    pub fuel_kg: u64,
    /// Feet per minute.
    pub vertical_speed: u64,
}

/// One telemetry snapshot. The measurements are bit patterns of IEEE 754
/// doubles, as in `Measurements`.
#[derive(Debug, Clone, PartialEq, Eq)]
pub struct FlightData {
    pub callsign: String,
    pub aircraft_icao: String,
    pub departure_icao: String,
    pub arrival_icao: String,
    pub latitude: u64,
    pub longitude: u64,
    pub altitude: u64,
    pub ground_speed: u64,
    pub heading: u64,
    pub fuel_kg: u64,
    pub vertical_speed: u64,
    pub on_ground: bool,
    pub timestamp: String,
}

/// A snapshot as the texts and numbers it holds.
pub struct FlightDataView {
    pub callsign: Seq<char>,
    pub aircraft_icao: Seq<char>,
    pub departure_icao: Seq<char>,
    pub arrival_icao: Seq<char>,
    pub measurements: Measurements,
    pub on_ground: bool,
    pub timestamp: Seq<char>,
}

impl FlightData {
    /// The measurements of the snapshot.
    pub open spec fn measurements(&self) -> Measurements {
        Measurements {
            latitude: self.latitude,
            longitude: self.longitude,
            altitude: self.altitude,
            ground_speed: self.ground_speed,
            heading: self.heading,
            fuel_kg: self.fuel_kg,
            vertical_speed: self.vertical_speed,
        }
    }

    /// A snapshot made of its parts.
    pub fn assemble_with_route(
        callsign: String,
        aircraft_icao: String,
        departure_icao: String,
        arrival_icao: String,
        measurements: Measurements,
        on_ground: bool,
        timestamp: String,
    ) -> (data: FlightData)
        ensures
            data@ == (FlightDataView {
                callsign: callsign@,
                aircraft_icao: aircraft_icao@,
                departure_icao: departure_icao@,
                arrival_icao: arrival_icao@,
                measurements,
                on_ground,
                timestamp: timestamp@,
            }),
    {
        FlightData {
            callsign,
            aircraft_icao,
            departure_icao,
            arrival_icao,
            latitude: measurements.latitude,
            longitude: measurements.longitude,
            altitude: measurements.altitude,
            ground_speed: measurements.ground_speed,
            heading: measurements.heading,
            fuel_kg: measurements.fuel_kg,
            vertical_speed: measurements.vertical_speed,
            on_ground,
            timestamp,
        }
    }

    /// A snapshot of a transport that knows no route: the identity as given,
    /// departure and arrival empty.
    pub fn assemble(
        callsign: String,
        aircraft_icao: String,
        measurements: Measurements,
        on_ground: bool,
        timestamp: String,
    ) -> (data: FlightData)
        ensures
            data@ == (FlightDataView {
                callsign: callsign@,
                aircraft_icao: aircraft_icao@,
                departure_icao: Seq::<char>::empty(),
                arrival_icao: Seq::<char>::empty(),
                measurements,
                on_ground,
                timestamp: timestamp@,
            }),
    {
        FlightData::assemble_with_route(
            callsign,
            aircraft_icao,
            String::new(),
            String::new(),
            measurements,
            on_ground,
            timestamp,
        )
    }
}

/// The snapshot of a transport that knows no route, stamped with the text of
/// its instant, or nothing where the instant has no text.
pub open spec fn stamped(
    callsign: Seq<char>,
    aircraft_icao: Seq<char>,
    measurements: Measurements,
    on_ground: bool,
    stamp: Option<Seq<char>>,
) -> Option<FlightDataView> {
    match stamp {
        Some(timestamp) => Some(
            FlightDataView {
                callsign,
                aircraft_icao,
                departure_icao: Seq::<char>::empty(),
                arrival_icao: Seq::<char>::empty(),
                measurements,
                on_ground,
                timestamp,
            },
        ),
        None => None,
    }
}

/// A snapshot, if any, as the texts and numbers it holds.
pub open spec fn snapshot_view(data: Option<FlightData>) -> Option<FlightDataView> {
    match data {
        Some(d) => Some(d@),
        None => None,
    }
}

impl FlightData {
    /// A snapshot stamped with the instant of its capture, given in seconds
    /// since the Unix epoch and nanoseconds; `None` where the instant has no
    /// RFC 3339 text.
    pub fn capture(
        callsign: String,
        aircraft_icao: String,
        measurements: Measurements,
        on_ground: bool,
        seconds: i64,
        nanos: u32,
    ) -> (data: Option<FlightData>)
        ensures
            snapshot_view(data) == stamped(
                callsign@,
                aircraft_icao@,
                measurements,
                on_ground,
                rfc3339_text(seconds, nanos),
            ),
    {
        match rfc3339_from_unix(seconds, nanos) {
            Some(timestamp) => Some(
                FlightData::assemble(callsign, aircraft_icao, measurements, on_ground, timestamp),
            ),
            None => None,
        }
    }
}

impl View for FlightData {
    type V = FlightDataView;

    open spec fn view(&self) -> FlightDataView {
        FlightDataView {
            callsign: self.callsign@,
            aircraft_icao: self.aircraft_icao@,
            departure_icao: self.departure_icao@,
            arrival_icao: self.arrival_icao@,
            measurements: self.measurements(),
            on_ground: self.on_ground,
            timestamp: self.timestamp@,
        }
    }
}

/// Why a transport did not start polling: it polls already.
#[derive(Debug, Clone, Copy, PartialEq, Eq, Structural)]
pub struct AlreadyRunning;

/// The three transports that reach a simulator.
#[derive(Debug, Clone, Copy, PartialEq, Eq, Structural)]
pub enum Transport {
    /// Shared memory and a window message: FSX and Prepar3D.
    Fsuipc,
    /// The vendor's foreign-call interface: MSFS.
    SimConnect,
    /// UDP datagrams: X-Plane.
    Xpuipc,
}

/// The transport that serves a simulator family.
pub open spec fn transport_of(sim_type: SimulatorType) -> Transport {
    match sim_type {
        SimulatorType::MSFS => Transport::SimConnect,
        SimulatorType::FSX | SimulatorType::P3D => Transport::Fsuipc,
        SimulatorType::XPLANE => Transport::Xpuipc,
    }
}

/// Whether a transport works on the host: the datagram transport does
/// everywhere, the other two on Windows only.
pub open spec fn supported(transport: Transport, windows: bool) -> bool {
    transport == Transport::Xpuipc || windows
}

impl SimulatorType {
    /// The transport that serves this family.
    pub fn transport(self) -> (transport: Transport)
        ensures
            transport == transport_of(self),
    {
        match self {
            SimulatorType::MSFS => Transport::SimConnect,
            SimulatorType::FSX => Transport::Fsuipc,
            SimulatorType::P3D => Transport::Fsuipc,
            SimulatorType::XPLANE => Transport::Xpuipc,
        }
    }
}

impl Transport {
    /// Whether the transport works on a host that is, or is not, Windows.
    pub fn is_supported(self, windows: bool) -> (answer: bool)
        ensures
            answer == supported(self, windows),
    {
        match self {
            Transport::Xpuipc => true,
            _ => windows,
        }
    }
}

/// The RFC 3339 text that chrono gives for an instant in UTC, given as the
/// seconds since the Unix epoch and the nanoseconds into that second; `None`
/// where chrono cannot represent the instant.
pub uninterp spec fn rfc3339_text(seconds: i64, nanos: u32) -> Option<Seq<char>>;

/// `chrono::DateTime::from_timestamp` followed by `DateTime::to_rfc3339`:
/// the text of the instant, which depends on the two numbers alone, or
/// `None` where `from_timestamp` refuses them.
#[verifier::external_body]
fn rfc3339_from_unix(seconds: i64, nanos: u32) -> (text: Option<String>)
    ensures
        text_of(text) == rfc3339_text(seconds, nanos),
{
    match chrono::DateTime::from_timestamp(seconds, nanos) {
        Some(at) => Some(at.to_rfc3339()),
        None => None,
    }
}

/// What the manager reports of itself.
#[derive(Debug, Clone, Copy, PartialEq, Eq)]
pub struct SimulatorStatus {
    pub simulator_type: Option<SimulatorType>,
    pub simulator_selected: bool,
    pub fsuipc_connected: bool,
    pub simconnect_connected: bool,
    pub xpuipc_connected: bool,
    pub data_running: bool,
}

/// Why the manager refused a command.
#[derive(Debug, Clone, Copy, PartialEq, Eq, Structural)]
pub enum SimulatorError {
    /// The transport does not work on this host.
    UnsupportedPlatform(Transport),
    /// No simulator is selected.
    NoSimulator,
    /// The selected simulator's transport is not connected.
    NotConnected(Transport),
    /// The transport polls already.
    AlreadyRunning,
}

/// The one client that the manager owns, tagged by its transport.
#[derive(Debug, Clone, Copy, PartialEq, Eq)]
pub enum Client {
    Fsuipc(FsuipcConnection),
    SimConnect(SimConnectConnection),
    Xpuipc(XpuipcConnection),
}

/// A client as the manager sees it: its transport and its two flags.
pub struct ClientState {
    pub transport: Transport,
    pub connected: bool,
    pub running: bool,
}

impl Client {
    /// The client as the manager sees it.
    pub open spec fn state(&self) -> ClientState {
        match self {
            Client::Fsuipc(c) => ClientState {
                transport: Transport::Fsuipc,
                connected: c.connected(),
                running: c.running(),
            },
            Client::SimConnect(c) => ClientState {
                transport: Transport::SimConnect,
                connected: c.connected(),
                running: c.running(),
            },
            Client::Xpuipc(c) => ClientState {
                transport: Transport::Xpuipc,
                connected: c.connected(),
                running: c.running(),
            },
        }
    }

    /// A fresh client for a transport: not connected, not polling; the
    /// datagram client on its default port.
    pub fn new(transport: Transport) -> (client: Client)
        ensures
            client.state() == (ClientState { transport, connected: false, running: false }),
    {
        match transport {
            Transport::Fsuipc => Client::Fsuipc(FsuipcConnection::new()),
            Transport::SimConnect => Client::SimConnect(SimConnectConnection::new()),
            Transport::Xpuipc => Client::Xpuipc(XpuipcConnection::new(xpuipc::DEFAULT_PORT)),
        }
    }

    /// The client's transport.
    pub fn transport(&self) -> (transport: Transport)
        ensures
            transport == self.state().transport,
    {
        match self {
            Client::Fsuipc(_) => Transport::Fsuipc,
            Client::SimConnect(_) => Transport::SimConnect,
            Client::Xpuipc(_) => Transport::Xpuipc,
        }
    }

    /// Whether the client is connected.
    pub fn is_connected(&self) -> (answer: bool)
        ensures
            answer == self.state().connected,
    {
        match self {
            Client::Fsuipc(c) => c.is_connected(),
            Client::SimConnect(c) => c.is_connected(),
            Client::Xpuipc(c) => c.is_connected(),
        }
    }

    /// Whether the client polls.
    pub fn is_running(&self) -> (answer: bool)
        ensures
            answer == self.state().running,
    {
        match self {
            Client::Fsuipc(c) => c.is_running(),
            Client::SimConnect(c) => c.is_running(),
            Client::Xpuipc(c) => c.is_running(),
        }
    }

    /// Starts polling, unless the client polls already.
    pub fn start(&mut self) -> (outcome: Result<(), AlreadyRunning>)
        ensures
            outcome is Ok <==> !old(self).state().running,
            final(self).state() == (ClientState { running: true, ..old(self).state() }),
    {
        match self {
            Client::Fsuipc(c) => c.start(),
            Client::SimConnect(c) => c.start(),
            Client::Xpuipc(c) => c.start(),
        }
    }

    /// Stops polling.
    pub fn stop(&mut self)
        ensures
            final(self).state() == (ClientState { running: false, ..old(self).state() }),
    {
        match self {
            Client::Fsuipc(c) => c.stop(),
            Client::SimConnect(c) => c.stop(),
            Client::Xpuipc(c) => c.stop(),
        }
    }
}

/// The manager as a value: the host's platform, the selected simulator, the
/// client if there is one, and the stored flight plan.
pub struct ManagerState {
    pub windows: bool,
    pub selected: Option<SimulatorType>,
    pub client: Option<ClientState>,
    pub plan: Option<StoredFlightPlanView>,
}

/// The manager owns at most one client; where it owns one, a simulator is
/// selected, the client is of that simulator's transport, the transport
/// works on the host, and the client is connected.
pub open spec fn consistent(state: ManagerState) -> bool {
    state.client matches Some(client) ==> {
        &&& state.selected matches Some(sim_type) && client.transport == transport_of(sim_type)
        &&& supported(client.transport, state.windows)
        &&& client.connected
    }
}

/// The manager of a host before any command.
pub open spec fn idle(windows: bool) -> ManagerState {
    ManagerState { windows, selected: None, client: None, plan: None }
}

/// The state after `disconnect`: nothing selected, no client.
pub open spec fn disconnected(state: ManagerState) -> ManagerState {
    ManagerState { selected: None, client: None, ..state }
}

/// The state after `connect`: the simulator selected, and no client yet.
pub open spec fn selecting(state: ManagerState, sim_type: SimulatorType) -> ManagerState {
    ManagerState { selected: Some(sim_type), client: None, ..state }
}

/// What `connect` asks of the host: to open the simulator's transport, or
/// nothing where the transport does not work on the host.
pub open spec fn connect_request(state: ManagerState, sim_type: SimulatorType) -> Result<
    Transport,
    SimulatorError,
> {
    if supported(transport_of(sim_type), state.windows) {
        Ok(transport_of(sim_type))
    } else {
        Err(SimulatorError::UnsupportedPlatform(transport_of(sim_type)))
    }
}

/// Whether the manager takes a client: a simulator is selected, no client is
/// there yet, and the client is a connected, idle one of the selected
/// simulator's transport, which works on the host.
pub open spec fn accepts(state: ManagerState, client: ClientState) -> bool {
    &&& state.client is None
    &&& state.selected matches Some(sim_type) && client.transport == transport_of(sim_type)
    &&& supported(client.transport, state.windows)
    &&& client.connected
    &&& !client.running
}

/// The state after `install`: the client taken where it is accepted.
pub open spec fn installed(state: ManagerState, client: ClientState) -> ManagerState {
    if accepts(state, client) {
        ManagerState { client: Some(client), ..state }
    } else {
        state
    }
}

/// What `start` answers: without a selection there is no simulator; the
/// foreign-call transport is unsupported off Windows; a selection without a
/// client is not connected; a client that polls is already running.
pub open spec fn start_outcome(state: ManagerState) -> Result<(), SimulatorError> {
    match state.selected {
        None => Err(SimulatorError::NoSimulator),
        Some(sim_type) => if transport_of(sim_type) == Transport::SimConnect && !state.windows {
            Err(SimulatorError::UnsupportedPlatform(Transport::SimConnect))
        } else {
            match state.client {
                None => Err(SimulatorError::NotConnected(transport_of(sim_type))),
                Some(client) => if client.running {
                    Err(SimulatorError::AlreadyRunning)
                } else {
                    Ok(())
                },
            }
        },
    }
}

/// The state after `start`: the client polls where `start` answers `Ok`.
pub open spec fn started(state: ManagerState) -> ManagerState {
    match state.client {
        Some(client) if start_outcome(state) is Ok => ManagerState {
            client: Some(ClientState { running: true, ..client }),
            ..state
        },
        _ => state,
    }
}

/// The state after `stop`: the client, if any, does not poll.
pub open spec fn stopped(state: ManagerState) -> ManagerState {
    match state.client {
        Some(client) => ManagerState {
            client: Some(ClientState { running: false, ..client }),
            ..state
        },
        None => state,
    }
}

/// Whether the client of a state is a connected one of `transport`.
pub open spec fn transport_connected(state: ManagerState, transport: Transport) -> bool {
    state.client matches Some(client) && client.transport == transport && client.connected
}

/// What `get_status` reports of a state.
pub open spec fn status_of(state: ManagerState) -> SimulatorStatus {
    SimulatorStatus {
        simulator_type: state.selected,
        simulator_selected: state.selected is Some,
        fsuipc_connected: transport_connected(state, Transport::Fsuipc),
        simconnect_connected: transport_connected(state, Transport::SimConnect),
        xpuipc_connected: transport_connected(state, Transport::Xpuipc),
        data_running: state.client matches Some(client) && client.running,
    }
}

/// The number of transports that a status reports as connected.
pub open spec fn connected_count(status: SimulatorStatus) -> nat {
    (if status.fsuipc_connected {
        1nat
    } else {
        0nat
    }) + (if status.simconnect_connected {
        1nat
    } else {
        0nat
    }) + (if status.xpuipc_connected {
        1nat
    } else {
        0nat
    })
}

/// Whether a status reports `transport` as connected.
pub open spec fn reports_connected(status: SimulatorStatus, transport: Transport) -> bool {
    match transport {
        Transport::Fsuipc => status.fsuipc_connected,
        Transport::SimConnect => status.simconnect_connected,
        Transport::Xpuipc => status.xpuipc_connected,
    }
}

/// What `connect` hands to the host.
#[derive(Debug, Clone, Copy, PartialEq, Eq)]
pub struct Selection {
    /// The client that the manager gave up, stopped, for the host to release.
    pub released: Option<Client>,
    /// The transport to open, or why none is to be opened.
    pub open: Result<Transport, SimulatorError>,
}

/// A client, if any, as the manager sees it.
pub open spec fn client_state(client: Option<Client>) -> Option<ClientState> {
    match client {
        Some(c) => Some(c.state()),
        None => None,
    }
}

/// A stored plan, if any, as the texts it holds.
pub open spec fn stored_view(plan: Option<StoredFlightPlan>) -> Option<StoredFlightPlanView> {
    match plan {
        Some(p) => Some(p@),
        None => None,
    }
}

/// A copy of an optional text.
pub(crate) fn clone_text(field: &Option<String>) -> (copy: Option<String>)
    ensures
        text_of(copy) == text_of(*field),
{
    match field {
        Some(s) => Some(s.clone()),
        None => None,
    }
}

impl StoredFlightPlan {
    /// A copy of the plan.
    pub fn duplicate(&self) -> (copy: StoredFlightPlan)
        ensures
            copy@ == self@,
    {
        StoredFlightPlan {
            callsign: clone_text(&self.callsign),
            aircraft_icao: clone_text(&self.aircraft_icao),
            departure_icao: clone_text(&self.departure_icao),
            arrival_icao: clone_text(&self.arrival_icao),
            route: clone_text(&self.route),
            source: clone_text(&self.source),
        }
    }
}

/// The connection manager: it selects a simulator, owns the one client that
/// serves it, and keeps the flight plan for the overlay.
pub struct SimulatorConnection {
    windows: bool,
    simulator_type: Option<SimulatorType>,
    client: Option<Client>,
    flight_plan: Option<StoredFlightPlan>,
}

impl View for SimulatorConnection {
    type V = ManagerState;

    closed spec fn view(&self) -> ManagerState {
        ManagerState {
            windows: self.windows,
            selected: self.simulator_type,
            client: client_state(self.client),
            plan: stored_view(self.flight_plan),
        }
    }
}

impl SimulatorConnection {
    #[verifier::type_invariant]
    spec fn well_formed(self) -> bool {
        consistent(self@)
    }

    /// The client that the manager owns.
    pub closed spec fn owned_client(&self) -> Option<Client> {
        self.client
    }

    /// A manager on a host that is, or is not, Windows: nothing selected, no
    /// client, no flight plan.
    pub fn new(windows: bool) -> (manager: Self)
        ensures
            manager@ == idle(windows),
            manager.owned_client() is None,
    {
        SimulatorConnection { windows, simulator_type: None, client: None, flight_plan: None }
    }

    /// Selects a simulator. A client that the manager owned is stopped and
    /// given up first, whatever follows. The host then opens the transport
    /// that the answer names and hands the connected client to `install`;
    /// where the transport does not work on the host, the simulator stays
    /// selected and nothing is to be opened.
    pub fn connect(&mut self, sim_type: SimulatorType) -> (selection: Selection)
        ensures
            final(self)@ == selecting(old(self)@, sim_type),
            consistent(final(self)@),
            final(self).owned_client() is None,
            client_state(selection.released) == stopped(old(self)@).client,
            selection.open == connect_request(old(self)@, sim_type),
    {
        let released = self.disconnect();
        self.simulator_type = Some(sim_type);
        let transport = sim_type.transport();
        let open = if transport.is_supported(self.windows) {
            Ok(transport)
        } else {
            Err(SimulatorError::UnsupportedPlatform(transport))
        };
        Selection { released, open }
    }

    /// Takes the client that the host opened after `connect`. The manager
    /// takes it where it has none, a simulator is selected, and the client is
    /// a connected, idle one of that simulator's transport, which works on
    /// the host; it says whether it did.
    pub fn install(&mut self, client: Client) -> (taken: bool)
        ensures
            taken == accepts(old(self)@, client.state()),
            final(self)@ == installed(old(self)@, client.state()),
            consistent(final(self)@),
            final(self).owned_client() == if taken {
                Some(client)
            } else {
                old(self).owned_client()
            },
    {
        proof {
            use_type_invariant(&*self);
        }
        let fits = match self.simulator_type {
            Some(sim_type) => self.client.is_none() && client.transport() == sim_type.transport()
                && client.transport().is_supported(self.windows) && client.is_connected()
                && !client.is_running(),
            None => false,
        };
        if fits {
            self.client = Some(client);
        }
        fits
    }

    /// Starts polling on the client of the selected simulator. After `Ok`
    /// the host runs the transport's polling loop until `is_running` of the
    /// client is false.
    pub fn start(&mut self) -> (outcome: Result<(), SimulatorError>)
        ensures
            outcome == start_outcome(old(self)@),
            final(self)@ == started(old(self)@),
            consistent(final(self)@),
    {
        proof {
            use_type_invariant(&*self);
        }
        let sim_type = match self.simulator_type {
            Some(sim_type) => sim_type,
            None => {
                return Err(SimulatorError::NoSimulator);
            },
        };
        let transport = sim_type.transport();
        if transport == Transport::SimConnect && !self.windows {
            return Err(SimulatorError::UnsupportedPlatform(Transport::SimConnect));
        }
        match self.client {
            None => Err(SimulatorError::NotConnected(transport)),
            Some(mut client) => {
                match client.start() {
                    Ok(()) => {
                        self.client = Some(client);
                        Ok(())
                    },
                    Err(_) => Err(SimulatorError::AlreadyRunning),
                }
            },
        }
    }

    /// Stops polling. There is nothing to fail: a manager without a client,
    /// or with one that does not poll, stays as it is.
    pub fn stop(&mut self)
        ensures
            final(self)@ == stopped(old(self)@),
            consistent(final(self)@),
            !status_of(final(self)@).data_running,
    {
        proof {
            use_type_invariant(&*self);
        }
        match self.client {
            Some(mut client) => {
                client.stop();
                self.client = Some(client);
            },
            None => {},
        }
    }

    /// Stops polling, gives up the client and forgets the selection. The
    /// client is returned, stopped, for the host to release what it holds.
    pub fn disconnect(&mut self) -> (released: Option<Client>)
        ensures
            final(self)@ == disconnected(old(self)@),
            consistent(final(self)@),
            final(self).owned_client() is None,
            client_state(released) == stopped(old(self)@).client,
    {
        self.stop();
        let released = self.client;
        self.client = None;
        self.simulator_type = None;
        released
    }

    /// Whether a simulator is selected.
    pub fn is_connected(&self) -> (answer: bool)
        ensures
            answer == (self@.selected is Some),
    {
        self.simulator_type.is_some()
    }

    /// The selected simulator.
    pub fn get_simulator_type(&self) -> (sim_type: Option<SimulatorType>)
        ensures
            sim_type == self@.selected,
    {
        self.simulator_type
    }

    /// Replaces the stored flight plan, or clears it.
    pub fn set_flight_plan(&mut self, plan: Option<StoredFlightPlan>)
        ensures
            final(self)@ == (ManagerState { plan: stored_view(plan), ..old(self)@ }),
            consistent(final(self)@),
            final(self).owned_client() == old(self).owned_client(),
    {
        proof {
            use_type_invariant(&*self);
        }
        self.flight_plan = plan;
    }

    /// A copy of the stored flight plan.
    pub fn get_flight_plan(&self) -> (plan: Option<StoredFlightPlan>)
        ensures
            stored_view(plan) == self@.plan,
    {
        match &self.flight_plan {
            Some(p) => Some(p.duplicate()),
            None => None,
        }
    }

    /// The status: the selection, which transport is connected, and whether
    /// the client polls. At most one transport is reported as connected, and
    /// only the selected simulator's.
    pub fn get_status(&self) -> (status: SimulatorStatus)
        ensures
            status == status_of(self@),
            consistent(self@),
            connected_count(status) <= 1,
    {
        proof {
            use_type_invariant(self);
        }
        let (transport, connected, running) = match &self.client {
            Some(client) => (Some(client.transport()), client.is_connected(), client.is_running()),
            None => (None, false, false),
        };
        SimulatorStatus {
            simulator_type: self.simulator_type,
            simulator_selected: self.simulator_type.is_some(),
            fsuipc_connected: connected && transport == Some(Transport::Fsuipc),
            simconnect_connected: connected && transport == Some(Transport::SimConnect),
            xpuipc_connected: connected && transport == Some(Transport::Xpuipc),
            data_running: running,
        }
    }

    /// Applies the overlay with the stored flight plan to a snapshot.
    pub fn enrich(&self, data: FlightData) -> (out: FlightData)
        ensures
            out@ == enriched(data@, self@.plan),
    {
        enrich(data, self.flight_plan.as_ref())
    }
}

/// Every command keeps the manager consistent.
pub proof fn lemma_commands_keep_consistency(
    state: ManagerState,
    sim_type: SimulatorType,
    client: ClientState,
)
    requires
        consistent(state),
    ensures
        consistent(idle(state.windows)),
        consistent(selecting(state, sim_type)),
        consistent(installed(state, client)),
        consistent(started(state)),
        consistent(stopped(state)),
        consistent(disconnected(state)),
{
}

/// A consistent manager reports at most one transport as connected, and then
/// the transport of the selected simulator.
pub proof fn lemma_at_most_one_transport(state: ManagerState)
    requires
        consistent(state),
    ensures
        connected_count(status_of(state)) <= 1,
        forall|transport: Transport| #[trigger]
            reports_connected(status_of(state), transport) ==> (state.selected matches Some(
                sim_type,
            ) && transport == transport_of(sim_type)),
{
    assert forall|transport: Transport| #[trigger]
        reports_connected(status_of(state), transport) implies (state.selected matches Some(
        sim_type,
    ) && transport == transport_of(sim_type)) by {
        match transport {
            Transport::Fsuipc => {},
            Transport::SimConnect => {},
            Transport::Xpuipc => {},
        }
    }
}

/// Single active transport: after one simulator was connected and then
/// another, each with the client that the host opened for it, the status
/// reports exactly one transport as connected, and it is the second
/// simulator's.
pub proof fn lemma_single_active_transport(
    state: ManagerState,
    first: SimulatorType,
    first_client: ClientState,
    second: SimulatorType,
    second_client: ClientState,
)
    requires
        accepts(selecting(state, first), first_client),
        accepts(selecting(state, second), second_client),
    ensures
        ({
            let end = installed(
                selecting(installed(selecting(state, first), first_client), second),
                second_client,
            );
            &&& status_of(end).simulator_type == Some(second)
            &&& connected_count(status_of(end)) == 1
            &&& reports_connected(status_of(end), transport_of(second))
            &&& end.client == Some(second_client)
        }),
{
}

/// Idempotent stop: stopping twice is stopping once, stopping a manager
/// that never started changes nothing, and after a stop nothing polls.
pub proof fn lemma_stop_is_idempotent(state: ManagerState)
    ensures
        stopped(stopped(state)) == stopped(state),
        !status_of(stopped(state)).data_running,
        !status_of(state).data_running ==> stopped(state) == state,
        stopped(idle(state.windows)) == idle(state.windows),
{
}


impl Transport {
    /// The name of the transport.
    pub open spec fn name_text(self) -> Seq<char> {
        match self {
            Transport::Fsuipc => "FSUIPC"@,
            Transport::SimConnect => "SimConnect"@,
            Transport::Xpuipc => "XPUIPC"@,
        }
    }

    /// The name of the transport.
    pub fn name(self) -> (name: &'static str)
        ensures
            name@ == self.name_text(),
    {
        match self {
            Transport::Fsuipc => "FSUIPC",
            Transport::SimConnect => "SimConnect",
            Transport::Xpuipc => "XPUIPC",
        }
    }
}

impl SimulatorError {
    /// The error in words.
    pub open spec fn message_text(self) -> Seq<char> {
        match self {
            SimulatorError::UnsupportedPlatform(transport) => transport.name_text()
                + " is only supported on Windows."@,
            SimulatorError::NoSimulator => "No simulator connected"@,
            SimulatorError::NotConnected(transport) => transport.name_text() + " not connected"@,
            SimulatorError::AlreadyRunning => "Already running"@,
        }
    }

    /// The error in words.
    pub fn message(&self) -> (text: String)
        ensures
            text@ == self.message_text(),
    {
        match self {
            SimulatorError::UnsupportedPlatform(transport) => transport.name().to_owned().concat(
                " is only supported on Windows.",
            ),
            SimulatorError::NoSimulator => "No simulator connected".to_owned(),
            SimulatorError::NotConnected(transport) => transport.name().to_owned().concat(
                " not connected",
            ),
            SimulatorError::AlreadyRunning => "Already running".to_owned(),
        }
    }
}

impl SimulatorType {
    /// The name of the family, as commands spell it.
    pub open spec fn name_text(self) -> Seq<char> {
        match self {
            SimulatorType::MSFS => "MSFS"@,
            SimulatorType::FSX => "FSX"@,
            SimulatorType::P3D => "P3D"@,
            SimulatorType::XPLANE => "XPLANE"@,
        }
    }

    /// The family that a command names, or nothing where the name is none
    /// of the four.
    pub fn from_name(name: &str) -> (sim_type: Option<SimulatorType>)
        ensures
            match sim_type {
                Some(found) => name@ == found.name_text(),
                None => name@ != "MSFS"@ && name@ != "FSX"@ && name@ != "P3D"@ && name@
                    != "XPLANE"@,
            },
    {
        if same_text(name, "MSFS") {
            Some(SimulatorType::MSFS)
        } else if same_text(name, "FSX") {
            Some(SimulatorType::FSX)
        } else if same_text(name, "P3D") {
            Some(SimulatorType::P3D)
        } else if same_text(name, "XPLANE") {
            Some(SimulatorType::XPLANE)
        } else {
            None
        }
    }

    /// The name of the family, as commands spell it.
    pub fn name(self) -> (name: &'static str)
        ensures
            name@ == self.name_text(),
    {
        match self {
            SimulatorType::MSFS => "MSFS",
            SimulatorType::FSX => "FSX",
            SimulatorType::P3D => "P3D",
            SimulatorType::XPLANE => "XPLANE",
        }
    }
}


} // verus!
