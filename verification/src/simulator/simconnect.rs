//! The foreign-call transport of MSFS.
//!
//! The client declares ten variables in a fixed order and asks for them once
//! per simulated second. Each delivery is a message whose payload holds the
//! ten values in that order: seven doubles, one 32-bit integer, and two
//! buffers of 256 bytes. The order of the declaration and the layout of the
//! payload are one contract: the offset of a value in the payload is the sum
//! of the widths declared before it.

use crate::simulator::{
    rfc3339_text, snapshot_view, stamped, AlreadyRunning, FlightData, Measurements,
};
use crate::text::{
    aircraft_or_placeholder, aircraft_or_unknown, callsign_or_placeholder, callsign_or_unknown,
    identifier_text, parse_identifier, signed_decimal, signed_decimal_text,
};
use crate::wire::{le_value, u32_at, u64_at};
use vstd::prelude::*;
use vstd::slice::{slice_subrange, slice_to_vec};

verus! {

/// The name under which the client opens its session.
pub const CLIENT_NAME: &'static str = "SkyNET";

/// The id of the data definition.
pub const DEFINE_ID: u32 = 1;

/// The id of the periodic request.
pub const REQUEST_ID: u32 = 1;

/// The id of the one-shot request that brings the first snapshot at once.
pub const REQUEST_ID_INIT: u32 = 2;

/// The object whose data is asked for: the user's aircraft.
pub const OBJECT_ID_USER: u32 = 0;

/// Delivery once per simulated second.
pub const PERIOD_SECOND: i32 = 4;

/// Delivery once.
pub const PERIOD_ONCE: i32 = 1;

/// The wire type of a 32-bit integer.
pub const DATATYPE_INT32: i32 = 1;

/// The wire type of a double.
pub const DATATYPE_FLOAT64: i32 = 4;

/// The wire type of a text buffer of 256 bytes.
pub const DATATYPE_STRING256: i32 = 8;

/// The kind of a dispatch message that carries the data of an object.
pub const RECV_ID_SIMOBJECT_DATA: u32 = 8;

/// The number of declared variables.
pub const DEFINITION_COUNT: usize = 10;

/// The size of the payload's layout: 572 bytes of values, rounded up to the
/// alignment of a double.
pub const LAYOUT_LEN: usize = 576;

/// The pause between two looks at the dispatch queue, in milliseconds.
pub const DISPATCH_PAUSE_MS: u64 = 100;

/// One declared variable: its name, its unit, and its wire type.
#[derive(Debug, Clone, Copy, PartialEq, Eq)]
pub struct DataDefinition {
    pub name: &'static str,
    pub unit: &'static str,
    pub datum_type: i32,
}

impl View for DataDefinition {
    type V = (Seq<char>, Seq<char>, i32);

    open spec fn view(&self) -> (Seq<char>, Seq<char>, i32) {
        (self.name@, self.unit@, self.datum_type)
    }
}

/// The declaration, in the order in which the payload holds the values.
pub open spec fn definition_table() -> Seq<(Seq<char>, Seq<char>, i32)> {
    seq![
        ("PLANE LATITUDE"@, "degrees"@, DATATYPE_FLOAT64),
        ("PLANE LONGITUDE"@, "degrees"@, DATATYPE_FLOAT64),
        ("PLANE ALTITUDE"@, "feet"@, DATATYPE_FLOAT64),
        ("GROUND VELOCITY"@, "feet per second"@, DATATYPE_FLOAT64),
        ("PLANE HEADING DEGREES TRUE"@, "degrees"@, DATATYPE_FLOAT64),
        ("FUEL TOTAL QUANTITY"@, "gallons"@, DATATYPE_FLOAT64),
        ("VERTICAL SPEED"@, "feet per minute"@, DATATYPE_FLOAT64),
        ("SIM ON GROUND"@, "bool"@, DATATYPE_INT32),
        ("TITLE"@, ""@, DATATYPE_STRING256),
        ("ATC ID"@, ""@, DATATYPE_STRING256),
    ]
}

/// The number of bytes that a value of a wire type takes in the payload.
pub open spec fn datum_width(datum_type: i32) -> nat {
    if datum_type == DATATYPE_FLOAT64 {
        8
    } else if datum_type == DATATYPE_INT32 {
        4
    } else if datum_type == DATATYPE_STRING256 {
        256
    } else {
        0
    }
}

/// The offset in the payload of the value declared at `index`: the widths of
/// all values declared before it.
pub open spec fn declared_offset(index: nat) -> nat
    decreases index,
{
    if index == 0 || index > definition_table().len() {
        0
    } else {
        declared_offset((index - 1) as nat) + datum_width(definition_table()[index - 1].2)
    }
}

/// The views of a list of definitions.
pub open spec fn definitions_view(list: Seq<DataDefinition>) -> Seq<(Seq<char>, Seq<char>, i32)> {
    list.map_values(|d: DataDefinition| d@)
}

/// The variables to declare, in order.
pub fn data_definitions() -> (list: Vec<DataDefinition>)
    ensures
        definitions_view(list@) == definition_table(),
{
    let double = DATATYPE_FLOAT64;
    let text = DATATYPE_STRING256;
    let mut list: Vec<DataDefinition> = Vec::new();
    list.push(DataDefinition { name: "PLANE LATITUDE", unit: "degrees", datum_type: double });
    list.push(DataDefinition { name: "PLANE LONGITUDE", unit: "degrees", datum_type: double });
    list.push(DataDefinition { name: "PLANE ALTITUDE", unit: "feet", datum_type: double });
    list.push(
        DataDefinition { name: "GROUND VELOCITY", unit: "feet per second", datum_type: double },
    );
    list.push(
        DataDefinition { name: "PLANE HEADING DEGREES TRUE", unit: "degrees", datum_type: double },
    );
    list.push(DataDefinition { name: "FUEL TOTAL QUANTITY", unit: "gallons", datum_type: double });
    list.push(
        DataDefinition { name: "VERTICAL SPEED", unit: "feet per minute", datum_type: double },
    );
    list.push(DataDefinition { name: "SIM ON GROUND", unit: "bool", datum_type: DATATYPE_INT32 });
    list.push(DataDefinition { name: "TITLE", unit: "", datum_type: text });
    list.push(DataDefinition { name: "ATC ID", unit: "", datum_type: text });
    assert(definitions_view(list@) =~= definition_table());
    list
}

/// The values of one payload. Doubles are kept as their IEEE 754 bit
/// patterns.
#[derive(Debug, Clone, PartialEq, Eq)]
pub struct SimConnectData {
    /// Degrees.
    pub latitude: u64,
    /// Degrees.
    pub longitude: u64,
    /// Feet.
    pub altitude: u64,
    /// Feet per second.
    pub ground_velocity_fps: u64,
    /// Degrees.
    pub heading: u64,
    /// Gallons.
    pub fuel_gallons: u64,
    /// Feet per minute.
    pub vertical_speed: u64,
    /// Zero in the air.
    pub sim_on_ground: u32,
    /// The aircraft's title, 256 bytes.
    pub title: Vec<u8>,
    /// The ATC id, 256 bytes.
    pub atc_id: Vec<u8>,
}

/// The values of a payload, with the two buffers as the bytes they hold.
pub struct SimConnectDataView {
    pub latitude: u64,
    pub longitude: u64,
    pub altitude: u64,
    pub ground_velocity_fps: u64,
    pub heading: u64,
    pub fuel_gallons: u64,
    pub vertical_speed: u64,
    pub sim_on_ground: u32,
    pub title: Seq<u8>,
    pub atc_id: Seq<u8>,
}

impl View for SimConnectData {
    type V = SimConnectDataView;

    open spec fn view(&self) -> SimConnectDataView {
        SimConnectDataView {
            latitude: self.latitude,
            longitude: self.longitude,
            altitude: self.altitude,
            ground_velocity_fps: self.ground_velocity_fps,
            heading: self.heading,
            fuel_gallons: self.fuel_gallons,
            vertical_speed: self.vertical_speed,
            sim_on_ground: self.sim_on_ground,
            title: self.title@,
            atc_id: self.atc_id@,
        }
    }
}

/// What a payload reads as: each value at its declared offset. A payload
/// shorter than the layout reads as nothing.
pub open spec fn payload_reading(payload: Seq<u8>) -> Option<SimConnectDataView> {
    if payload.len() < LAYOUT_LEN {
        None
    } else {
        Some(
            SimConnectDataView {
                latitude: le_value(payload.subrange(0, 8)) as u64,
                longitude: le_value(payload.subrange(8, 16)) as u64,
                altitude: le_value(payload.subrange(16, 24)) as u64,
                ground_velocity_fps: le_value(payload.subrange(24, 32)) as u64,
                heading: le_value(payload.subrange(32, 40)) as u64,
                fuel_gallons: le_value(payload.subrange(40, 48)) as u64,
                vertical_speed: le_value(payload.subrange(48, 56)) as u64,
                sim_on_ground: le_value(payload.subrange(56, 60)) as u32,
                title: payload.subrange(60, 316),
                atc_id: payload.subrange(316, 572),
            },
        )
    }
}

/// What a dispatch message yields: the values of its payload where it is of
/// the kind that carries object data and long enough for a header of
/// `header_len` bytes and the layout; nothing else.
pub open spec fn dispatch_reading(message: Seq<u8>, header_len: nat) -> Option<SimConnectDataView> {
    if message.len() >= 12 && le_value(message.subrange(8, 12)) == RECV_ID_SIMOBJECT_DATA
        && message.len() >= header_len + LAYOUT_LEN {
        payload_reading(message.skip(header_len as int))
    } else {
        None
    }
}

/// An optional payload as the values it holds.
pub open spec fn reading_view(data: Option<SimConnectData>) -> Option<SimConnectDataView> {
    match data {
        Some(d) => Some(d@),
        None => None,
    }
}

/// The layout follows the declaration: each value is read at the sum of the
/// widths declared before it, and the values end inside the layout.
pub proof fn lemma_layout_follows_declaration()
    ensures
        declared_offset(0) == 0,
        declared_offset(1) == 8,
        declared_offset(2) == 16,
        declared_offset(3) == 24,
        declared_offset(4) == 32,
        declared_offset(5) == 40,
        declared_offset(6) == 48,
        declared_offset(7) == 56,
        declared_offset(8) == 60,
        declared_offset(9) == 316,
        declared_offset(10) == 572,
        declared_offset(10) <= LAYOUT_LEN,
{
    reveal_with_fuel(declared_offset, 11);
}

/// Reads the values of a payload, or nothing where it is shorter than the
/// layout.
pub fn decode_payload(payload: &[u8]) -> (data: Option<SimConnectData>)
    ensures
        reading_view(data) == payload_reading(payload@),
{
    if payload.len() < LAYOUT_LEN {
        return None;
    }
    let latitude = u64_at(payload, 0);
    let longitude = u64_at(payload, 8);
    let altitude = u64_at(payload, 16);
    let ground_velocity_fps = u64_at(payload, 24);
    let heading = u64_at(payload, 32);
    let fuel_gallons = u64_at(payload, 40);
    let vertical_speed = u64_at(payload, 48);
    let sim_on_ground = u32_at(payload, 56);
    let title = slice_to_vec(slice_subrange(payload, 60, 316));
    let atc_id = slice_to_vec(slice_subrange(payload, 316, 572));
    match (
        latitude,
        longitude,
        altitude,
        ground_velocity_fps,
        heading,
        fuel_gallons,
        vertical_speed,
        sim_on_ground,
    ) {
        (
            Some(latitude),
            Some(longitude),
            Some(altitude),
            Some(ground_velocity_fps),
            Some(heading),
            Some(fuel_gallons),
            Some(vertical_speed),
            Some(sim_on_ground),
        ) => Some(
            SimConnectData {
                latitude,
                longitude,
                altitude,
                ground_velocity_fps,
                heading,
                fuel_gallons,
                vertical_speed,
                sim_on_ground,
                title,
                atc_id,
            },
        ),
        _ => None,
    }
}

/// Looks at one dispatch message: `message` is all of it, `header_len` the
/// size of the header that precedes the payload in a message of object data.
/// Messages of other kinds, and messages too short, yield nothing.
pub fn on_dispatch(message: &[u8], header_len: usize) -> (data: Option<SimConnectData>)
    ensures
        reading_view(data) == dispatch_reading(message@, header_len as nat),
{
    match u32_at(message, 8) {
        Some(kind) => {
            proof {
                crate::wire::lemma_le_value_fits(message@.subrange(8, 12));
            }
            if kind != RECV_ID_SIMOBJECT_DATA {
                return None;
            }
        },
        None => {
            return None;
        },
    }
    if header_len > message.len() || message.len() - header_len < LAYOUT_LEN {
        return None;
    }
    let payload = slice_subrange(message, header_len, message.len());
    assert(payload@ =~= message@.skip(header_len as int));
    decode_payload(payload)
}

/// Why a session with the simulator could not be set up. Each code is the
/// result that the vendor's interface returned.
#[derive(Debug, Clone, Copy, PartialEq, Eq, Structural)]
pub enum SimConnectError {
    /// The session could not be opened: the interface is missing or the
    /// simulator does not run.
    OpenFailed(i32),
    /// The variable at this place of the declaration was refused.
    DefinitionFailed(usize, i32),
    /// The periodic request was refused.
    RequestFailed(i32),
}

/// The calls that set up a session, in order.
#[derive(Debug, Clone, Copy, PartialEq, Eq, Structural)]
pub enum ConnectStep {
    /// Open the session under `CLIENT_NAME`.
    Open,
    /// Clear the definition `DEFINE_ID`.
    ClearDefinition,
    /// Add the variable at this place of the declaration to `DEFINE_ID`.
    AddDefinition(usize),
    /// Ask for `DEFINE_ID` of the user's aircraft once per second, as
    /// `REQUEST_ID`.
    RequestEverySecond,
    /// Ask for it once, as `REQUEST_ID_INIT`.
    RequestOnce,
}

/// What follows a call of the set-up.
#[derive(Debug, Clone, Copy, PartialEq, Eq, Structural)]
pub enum ConnectProgress {
    /// Make this call next.
    Next(ConnectStep),
    /// The session is set up.
    Connected,
    /// The set-up failed; `close` says whether the session is to be closed.
    Failed { error: SimConnectError, close: bool },
}

/// What follows the call `step` that returned `result`; `no_handle` says that
/// opening gave no session handle. The results of clearing the definition and
/// of the one-shot request do not matter. A refused variable ends the set-up
/// without closing the session; a refused periodic request closes it.
pub open spec fn progress_after(step: ConnectStep, result: i32, no_handle: bool)
    -> ConnectProgress {
    match step {
        ConnectStep::Open => if result != 0 || no_handle {
            ConnectProgress::Failed { error: SimConnectError::OpenFailed(result), close: false }
        } else {
            ConnectProgress::Next(ConnectStep::ClearDefinition)
        },
        ConnectStep::ClearDefinition => ConnectProgress::Next(ConnectStep::AddDefinition(0)),
        ConnectStep::AddDefinition(index) => if result != 0 {
            ConnectProgress::Failed {
                error: SimConnectError::DefinitionFailed(index, result),
                close: false,
            }
        } else if index + 1 < DEFINITION_COUNT {
            ConnectProgress::Next(ConnectStep::AddDefinition((index + 1) as usize))
        } else {
            ConnectProgress::Next(ConnectStep::RequestEverySecond)
        },
        ConnectStep::RequestEverySecond => if result != 0 {
            ConnectProgress::Failed { error: SimConnectError::RequestFailed(result), close: true }
        } else {
            ConnectProgress::Next(ConnectStep::RequestOnce)
        },
        ConnectStep::RequestOnce => ConnectProgress::Connected,
    }
}

/// The first call of the set-up.
pub fn first_step() -> (step: ConnectStep)
    ensures
        step == ConnectStep::Open,
{
    ConnectStep::Open
}

/// Decides what follows the call `step` that returned `result`.
pub fn advance(step: ConnectStep, result: i32, no_handle: bool) -> (progress: ConnectProgress)
    ensures
        progress == progress_after(step, result, no_handle),
{
    match step {
        ConnectStep::Open => {
            if result != 0 || no_handle {
                ConnectProgress::Failed { error: SimConnectError::OpenFailed(result), close: false }
            } else {
                ConnectProgress::Next(ConnectStep::ClearDefinition)
            }
        },
        ConnectStep::ClearDefinition => ConnectProgress::Next(ConnectStep::AddDefinition(0)),
        ConnectStep::AddDefinition(index) => {
            if result != 0 {
                ConnectProgress::Failed {
                    error: SimConnectError::DefinitionFailed(index, result),
                    close: false,
                }
            } else if index < DEFINITION_COUNT - 1 {
                ConnectProgress::Next(ConnectStep::AddDefinition(index + 1))
            } else {
                ConnectProgress::Next(ConnectStep::RequestEverySecond)
            }
        },
        ConnectStep::RequestEverySecond => {
            if result != 0 {
                ConnectProgress::Failed {
                    error: SimConnectError::RequestFailed(result),
                    close: true,
                }
            } else {
                ConnectProgress::Next(ConnectStep::RequestOnce)
            }
        },
        ConnectStep::RequestOnce => ConnectProgress::Connected,
    }
}

/// Where the set-up stands after the calls from `step` on returned
/// `results` in turn: the call to make next, or how the set-up ended. Calls
/// after its end are not made.
pub open spec fn set_up_after(step: ConnectStep, results: Seq<i32>, no_handle: bool)
    -> ConnectProgress
    decreases results.len(),
{
    if results.len() == 0 {
        ConnectProgress::Next(step)
    } else {
        match progress_after(step, results[0], no_handle) {
            ConnectProgress::Next(next) => set_up_after(next, results.drop_first(), no_handle),
            done => done,
        }
    }
}

/// The step that follows `count` successful calls, for `count` up to 13.
pub open spec fn step_at(count: int) -> ConnectStep {
    if count == 0 {
        ConnectStep::Open
    } else if count == 1 {
        ConnectStep::ClearDefinition
    } else if count <= 11 {
        ConnectStep::AddDefinition((count - 2) as usize)
    } else if count == 12 {
        ConnectStep::RequestEverySecond
    } else {
        ConnectStep::RequestOnce
    }
}

proof fn lemma_set_up_splits(step: ConnectStep, results: Seq<i32>, count: int)
    requires
        0 <= count <= results.len(),
    ensures
        set_up_after(step, results, false) == match set_up_after(
            step,
            results.take(count),
            false,
        ) {
            ConnectProgress::Next(next) => set_up_after(next, results.skip(count), false),
            done => done,
        },
    decreases count,
{
    if count == 0 {
        assert(results.skip(0) =~= results);
    } else {
        assert(results.take(count)[0] == results[0]);
        assert(results.take(count).drop_first() =~= results.drop_first().take(count - 1));
        assert(results.skip(count) =~= results.drop_first().skip(count - 1));
        match progress_after(step, results[0], false) {
            ConnectProgress::Next(next) => {
                lemma_set_up_splits(next, results.drop_first(), count - 1);
            },
            _ => {},
        }
    }
}

proof fn lemma_set_up_reaches(results: Seq<i32>, count: int)
    requires
        0 <= count <= 13,
        results.len() >= count,
        forall|i: int| 0 <= i < count && i != 1 ==> #[trigger] results[i] == 0,
    ensures
        set_up_after(ConnectStep::Open, results.take(count), false) == ConnectProgress::Next(
            step_at(count),
        ),
    decreases count,
{
    if count > 0 {
        lemma_set_up_reaches(results, count - 1);
        let shorter = results.take(count);
        assert(shorter.take(count - 1) =~= results.take(count - 1));
        lemma_set_up_splits(ConnectStep::Open, shorter, count - 1);
        let last = shorter.skip(count - 1);
        assert(last[0] == results[count - 1]);
        assert(last.drop_first().len() == 0);
        assert(set_up_after(step_at(count - 1), last, false) == ConnectProgress::Next(
            step_at(count),
        )) by {
            reveal_with_fuel(set_up_after, 3);
            assert(progress_after(step_at(count - 1), last[0], false) == ConnectProgress::Next(
                step_at(count),
            ));
        }
    }
}

/// The set-up is fourteen calls: opening, clearing, the ten variables, and
/// the two requests. It ends connected where opening gave a handle and every
/// call succeeded; the results of clearing and of the one-shot request do
/// not matter.
pub proof fn lemma_set_up_completes(results: Seq<i32>)
    requires
        results.len() == 14,
        forall|i: int| 0 <= i < 14 && i != 1 && i != 13 ==> #[trigger] results[i] == 0,
    ensures
        set_up_after(ConnectStep::Open, results, false) == ConnectProgress::Connected,
        set_up_after(ConnectStep::Open, results.take(13), false) == ConnectProgress::Next(
            ConnectStep::RequestOnce,
        ),
{
    lemma_set_up_reaches(results, 13);
    let last = results.skip(13);
    assert(last.drop_first().len() == 0);
    assert(last[0] == results[13]);
    lemma_set_up_splits(ConnectStep::Open, results, 13);
    assert(set_up_after(ConnectStep::RequestOnce, last, false) == ConnectProgress::Connected) by {
        assert(progress_after(ConnectStep::RequestOnce, last[0], false)
            == ConnectProgress::Connected);
    }
}

/// The foreign-call client: whether its session is open, and whether it
/// polls.
#[derive(Debug, Clone, Copy, PartialEq, Eq)]
pub struct SimConnectConnection {
    connected: bool,
    running: bool,
}

impl SimConnectConnection {
    /// Whether the session is open.
    pub closed spec fn connected(&self) -> bool {
        self.connected
    }

    /// Whether the client polls.
    pub closed spec fn running(&self) -> bool {
        self.running
    }

    /// A client without a session, not polling.
    pub fn new() -> (client: Self)
        ensures
            !client.connected(),
            !client.running(),
    {
        SimConnectConnection { connected: false, running: false }
    }

    /// Records how the set-up of the session ended: the client is connected
    /// from now on where it succeeded, and unchanged where it failed.
    pub fn connect(&mut self, set_up: Result<(), SimConnectError>) -> (outcome: Result<
        (),
        SimConnectError,
    >)
        ensures
            outcome == set_up,
            final(self).connected() == (set_up is Ok || old(self).connected()),
            final(self).running() == old(self).running(),
    {
        if set_up.is_ok() {
            self.connected = true;
        }
        set_up
    }

    /// Starts polling, unless the client polls already.
    pub fn start(&mut self) -> (outcome: Result<(), AlreadyRunning>)
        ensures
            outcome is Ok <==> !old(self).running(),
            final(self).running(),
            final(self).connected() == old(self).connected(),
    {
        if self.running {
            return Err(AlreadyRunning);
        }
        self.running = true;
        Ok(())
    }

    /// Stops polling.
    pub fn stop(&mut self)
        ensures
            !final(self).running(),
            final(self).connected() == old(self).connected(),
    {
        self.running = false;
    }

    /// Stops polling and gives up the session.
    pub fn disconnect(&mut self)
        ensures
            !final(self).running(),
            !final(self).connected(),
    {
        self.stop();
        self.connected = false;
    }

    /// Whether the session is open.
    pub fn is_connected(&self) -> (answer: bool)
        ensures
            answer == self.connected(),
    {
        self.connected
    }

    /// Whether the client polls.
    pub fn is_running(&self) -> (answer: bool)
        ensures
            answer == self.running(),
    {
        self.running
    }

    /// The snapshot for a payload: the ATC id as callsign and the first four
    /// characters of the title as aircraft type, both upper-cased, each
    /// replaced by its placeholder where it is empty; `measurements` are the
    /// payload's numbers in the snapshot's units.
    pub fn flight_data(
        record: &SimConnectData,
        measurements: Measurements,
        seconds: i64,
        nanos: u32,
    ) -> (data: Option<FlightData>)
        ensures
            snapshot_view(data) == stamped(
                callsign_or_placeholder(identifier_text(record.atc_id@)),
                aircraft_or_placeholder(identifier_text(record.title@)),
                measurements,
                record.sim_on_ground != 0,
                rfc3339_text(seconds, nanos),
            ),
    {
        let callsign = callsign_or_unknown(parse_identifier(record.atc_id.as_slice()));
        let title = parse_identifier(record.title.as_slice());
        let aircraft_icao = aircraft_or_unknown(title.as_str());
        FlightData::capture(
            callsign,
            aircraft_icao,
            measurements,
            record.sim_on_ground != 0,
            seconds,
            nanos,
        )
    }
}

impl Default for SimConnectConnection {
    /// A client without a session, not polling.
    fn default() -> (client: Self)
        ensures
            !client.connected(),
            !client.running(),
    {
        SimConnectConnection::new()
    }
}

/// The name of the variable declared at `index`, or the empty text where the
/// declaration has no such place.
pub open spec fn definition_name(index: usize) -> Seq<char> {
    if index < definition_table().len() {
        definition_table()[index as int].0
    } else {
        ""@
    }
}

impl SimConnectError {
    /// The error in words.
    pub open spec fn message_text(self) -> Seq<char> {
        match self {
            SimConnectError::OpenFailed(result) =>
                "Failed to connect to SimConnect (is MSFS running?): HRESULT="@
                + signed_decimal_text(result as int),
            SimConnectError::DefinitionFailed(index, result) => "AddToDataDefinition "@
                + definition_name(index) + " failed: "@ + signed_decimal_text(result as int),
            SimConnectError::RequestFailed(result) => "RequestDataOnSimObject failed: "@
                + signed_decimal_text(result as int),
        }
    }

    /// The error in words.
    pub fn message(&self) -> (text: String)
        ensures
            text@ == self.message_text(),
    {
        match self {
            SimConnectError::OpenFailed(result) => {
                let text = "Failed to connect to SimConnect (is MSFS running?): HRESULT=";
                text.to_owned().concat(signed_decimal(*result as i64).as_str())
            },
            SimConnectError::DefinitionFailed(index, result) => {
                let table = data_definitions();
                let name: &str = if *index < table.len() {
                    assert(definitions_view(table@)[*index as int] == table@[*index as int]@);
                    table[*index].name
                } else {
                    ""
                };
                let text = "AddToDataDefinition ".to_owned();
                let text = text.concat(name);
                let text = text.concat(" failed: ");
                text.concat(signed_decimal(*result as i64).as_str())
            },
            SimConnectError::RequestFailed(result) => {
                let text = "RequestDataOnSimObject failed: ".to_owned();
                text.concat(signed_decimal(*result as i64).as_str())
            },
        }
    }
}


} // verus!
