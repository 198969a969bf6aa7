//! The shared-memory transport of FSX and Prepar3D: which offsets a tick
//! reads, and what the answer means.
//!
//! A tick asks for ten fields in one batch. Each request names as its
//! destination a place in a staging area of 82 bytes, where the fields lie
//! one behind the other in the order of the table; the response is copied
//! into that area and the fields are read from it. A tick that fails at any
//! point yields nothing.

use crate::simulator::fsuipc_user64::{
    answered, deliveries_view, expected_deliveries, lemma_answered_round_trip,
    lemma_read_request_len, read_request, session_outcome, zeros, Delivery, IpcError,
    UserSession64, FS6IPC_MESSAGE_SUCCESS,
};
use crate::simulator::{
    rfc3339_text, snapshot_view, stamped, AlreadyRunning, FlightData, Measurements,
};
use crate::text::{
    aircraft_or_placeholder, aircraft_or_unknown, callsign_or_placeholder, callsign_or_unknown,
    decimal, decimal_text, identifier_text, parse_identifier,
};
use crate::wire::{as_signed_16, i16_at, le_value, u32_at, u64_at};
use vstd::prelude::*;
use vstd::slice::{slice_subrange, slice_to_vec};

verus! {

/// The number of fields that a tick reads.
pub const FIELD_COUNT: usize = 10;

/// The size of the staging area: the widths of all fields.
pub const STAGING_LEN: usize = 82;

/// The pause between two ticks, in milliseconds: two ticks a second.
pub const TICK_MS: u64 = 500;

/// The fields of a tick as the simulator numbers them: the offset of each
/// and its width in bytes. Latitude, longitude, altitude in feet (doubles),
/// ground speed in metres per second times 65536 (32 bits), heading (double),
/// fuel in gallons (float), vertical speed in feet per minute times 256
/// (signed 16 bits), the on-ground flag (32 bits), the aircraft type (24
/// bytes) and the ATC id (12 bytes).
pub open spec fn offset_table() -> Seq<(u16, nat)> {
    seq![
        (0x0560u16, 8nat),
        (0x0568u16, 8nat),
        (0x0570u16, 8nat),
        (0x02B4u16, 4nat),
        (0x0578u16, 8nat),
        (0x0AF4u16, 4nat),
        (0x02C8u16, 2nat),
        (0x0366u16, 4nat),
        (0x3160u16, 24nat),
        (0x3D00u16, 12nat),
    ]
}

/// The place of the field at `index` in the staging area: the widths of all
/// fields before it.
pub open spec fn staging_offset(index: nat) -> nat
    decreases index,
{
    if index == 0 || index > offset_table().len() {
        0
    } else {
        staging_offset((index - 1) as nat) + offset_table()[index - 1].1
    }
}

/// The requests for the first `count` fields, one behind the other.
pub open spec fn batch_request(count: nat) -> Seq<u8>
    decreases count,
{
    if count == 0 || count > offset_table().len() {
        Seq::empty()
    } else {
        batch_request((count - 1) as nat) + read_request(
            offset_table()[count - 1].0,
            staging_offset((count - 1) as nat) as u64,
            offset_table()[count - 1].1,
        )
    }
}

/// One field of the table.
#[derive(Debug, Clone, Copy, PartialEq, Eq)]
pub struct ReadField {
    /// The simulator's offset.
    pub offset: u16,
    /// The width in bytes.
    pub len: usize,
    /// The place in the staging area.
    pub dest: u64,
}

impl View for ReadField {
    type V = (u16, nat, nat);

    open spec fn view(&self) -> (u16, nat, nat) {
        (self.offset, self.len as nat, self.dest as nat)
    }
}

/// The field at `index` with its place in the staging area.
pub open spec fn table_entry(index: nat) -> (u16, nat, nat) {
    (offset_table()[index as int].0, offset_table()[index as int].1, staging_offset(index))
}

/// The fields of a tick, in order, each with its place in the staging area.
pub fn read_table() -> (table: Vec<ReadField>)
    ensures
        table@.len() == FIELD_COUNT,
        forall|i: int| 0 <= i < FIELD_COUNT ==> (#[trigger] table@[i])@ == table_entry(i as nat),
{
    let mut table: Vec<ReadField> = Vec::new();
    table.push(ReadField { offset: 0x0560, len: 8, dest: 0 });
    table.push(ReadField { offset: 0x0568, len: 8, dest: 8 });
    table.push(ReadField { offset: 0x0570, len: 8, dest: 16 });
    table.push(ReadField { offset: 0x02B4, len: 4, dest: 24 });
    table.push(ReadField { offset: 0x0578, len: 8, dest: 28 });
    table.push(ReadField { offset: 0x0AF4, len: 4, dest: 36 });
    table.push(ReadField { offset: 0x02C8, len: 2, dest: 40 });
    table.push(ReadField { offset: 0x0366, len: 4, dest: 42 });
    table.push(ReadField { offset: 0x3160, len: 24, dest: 46 });
    table.push(ReadField { offset: 0x3D00, len: 12, dest: 70 });
    proof {
        reveal_with_fuel(staging_offset, 11);
    }
    table
}

/// The staging area holds the fields without gaps: it ends where the last
/// field ends.
pub proof fn lemma_staging_area_is_packed()
    ensures
        staging_offset(FIELD_COUNT as nat) == STAGING_LEN,
        forall|i: nat| i < FIELD_COUNT ==> #[trigger] staging_offset(i) + offset_table()[i as int].1
            <= STAGING_LEN,
{
    reveal_with_fuel(staging_offset, 11);
}

/// The requests for the first `count` fields take twenty bytes each and the
/// widths of the fields; all ten take 282 bytes.
pub proof fn lemma_batch_request_len(count: nat)
    requires
        count <= FIELD_COUNT,
    ensures
        batch_request(count).len() == 20 * count + staging_offset(count),
        staging_offset(count) <= STAGING_LEN,
        batch_request(FIELD_COUNT as nat).len() == 282,
    decreases count,
{
    reveal_with_fuel(staging_offset, 11);
    if count > 0 {
        lemma_batch_request_len((count - 1) as nat);
        lemma_read_request_len(
            offset_table()[count - 1].0,
            staging_offset((count - 1) as nat) as u64,
            offset_table()[count - 1].1,
        );
    }
    if count < FIELD_COUNT {
        lemma_batch_request_len_all();
    }
}

/// The requests for the first fields are the start of the requests for
/// more of them.
proof fn lemma_batch_request_prefix(fewer: nat, more: nat)
    requires
        fewer <= more <= FIELD_COUNT,
    ensures
        batch_request(more).take(batch_request(fewer).len() as int) == batch_request(fewer),
        batch_request(fewer).len() <= batch_request(more).len(),
    decreases more - fewer,
{
    if fewer == more {
        assert(batch_request(more).take(batch_request(more).len() as int) =~= batch_request(more));
    } else {
        lemma_batch_request_prefix(fewer, (more - 1) as nat);
        let shorter = batch_request((more - 1) as nat);
        let record = read_request(
            offset_table()[more - 1].0,
            staging_offset((more - 1) as nat) as u64,
            offset_table()[more - 1].1,
        );
        assert(batch_request(more) == shorter + record);
        assert((shorter + record).take(batch_request(fewer).len() as int) =~= shorter.take(
            batch_request(fewer).len() as int,
        ));
    }
}

proof fn lemma_batch_request_len_all()
    ensures
        batch_request(FIELD_COUNT as nat).len() == 282,
{
    reveal_with_fuel(staging_offset, 11);
    reveal_with_fuel(batch_request, 11);
    lemma_read_request_len(0x0560, 0, 8);
    lemma_read_request_len(0x0568, 8, 8);
    lemma_read_request_len(0x0570, 16, 8);
    lemma_read_request_len(0x02B4, 24, 4);
    lemma_read_request_len(0x0578, 28, 8);
    lemma_read_request_len(0x0AF4, 36, 4);
    lemma_read_request_len(0x02C8, 40, 2);
    lemma_read_request_len(0x0366, 42, 4);
    lemma_read_request_len(0x3160, 46, 24);
    lemma_read_request_len(0x3D00, 70, 12);
}

/// Why a tick yielded nothing.
#[derive(Debug, Clone, Copy, PartialEq, Eq, Structural)]
pub enum FsuipcError {
    /// The session failed.
    Session(IpcError),
    /// The response asked for `len` bytes to be copied to `target`, which is
    /// not inside the staging area.
    StrayDelivery { target: u64, len: usize },
}

/// The area after `data` was copied to `target`, or nothing where it does
/// not fit.
pub open spec fn placed(area: Seq<u8>, target: u64, data: Seq<u8>) -> Option<Seq<u8>> {
    if target + data.len() <= area.len() {
        Some(
            area.subrange(0, target as int) + data + area.subrange(
                target + data.len(),
                area.len() as int,
            ),
        )
    } else {
        None
    }
}

/// The area after all deliveries were copied in turn, or the first that
/// does not fit.
pub open spec fn staged(area: Seq<u8>, deliveries: Seq<(u64, Seq<u8>)>) -> Result<
    Seq<u8>,
    FsuipcError,
>
    decreases deliveries.len(),
{
    if deliveries.len() == 0 {
        Ok(area)
    } else {
        match placed(area, deliveries[0].0, deliveries[0].1) {
            Some(next) => staged(next, deliveries.drop_first()),
            None => Err(
                FsuipcError::StrayDelivery {
                    target: deliveries[0].0,
                    len: deliveries[0].1.len() as usize,
                },
            ),
        }
    }
}

/// The raw fields of a tick. Doubles and floats are kept as their IEEE 754
/// bit patterns.
#[derive(Debug, Clone, PartialEq, Eq)]
pub struct FsuipcData {
    /// Degrees, a double.
    pub latitude: u64,
    /// Degrees, a double.
    pub longitude: u64,
    /// Feet, a double.
    pub altitude: u64,
    /// Metres per second times 65536.
    pub ground_speed_raw: u32,
    /// Degrees, a double.
    pub heading: u64,
    /// Gallons, a float.
    pub fuel_gallons: u32,
    /// Feet per minute times 256.
    pub vertical_speed_raw: i16,
    /// Zero in the air.
    pub on_ground_flag: u32,
    /// The aircraft type, 24 bytes.
    pub aircraft_type: Vec<u8>,
    /// The ATC id, 12 bytes.
    pub atc_id: Vec<u8>,
}

/// The raw fields of a tick, with the two buffers as the bytes they hold.
pub struct FsuipcDataView {
    pub latitude: u64,
    pub longitude: u64,
    pub altitude: u64,
    pub ground_speed_raw: u32,
    pub heading: u64,
    pub fuel_gallons: u32,
    pub vertical_speed_raw: i16,
    pub on_ground_flag: u32,
    pub aircraft_type: Seq<u8>,
    pub atc_id: Seq<u8>,
}

impl View for FsuipcData {
    type V = FsuipcDataView;

    open spec fn view(&self) -> FsuipcDataView {
        FsuipcDataView {
            latitude: self.latitude,
            longitude: self.longitude,
            altitude: self.altitude,
            ground_speed_raw: self.ground_speed_raw,
            heading: self.heading,
            fuel_gallons: self.fuel_gallons,
            vertical_speed_raw: self.vertical_speed_raw,
            on_ground_flag: self.on_ground_flag,
            aircraft_type: self.aircraft_type@,
            atc_id: self.atc_id@,
        }
    }
}

/// The fields that a staging area holds, each at its place.
pub open spec fn area_reading(area: Seq<u8>) -> FsuipcDataView {
    FsuipcDataView {
        latitude: le_value(area.subrange(0, 8)) as u64,
        longitude: le_value(area.subrange(8, 16)) as u64,
        altitude: le_value(area.subrange(16, 24)) as u64,
        ground_speed_raw: le_value(area.subrange(24, 28)) as u32,
        heading: le_value(area.subrange(28, 36)) as u64,
        fuel_gallons: le_value(area.subrange(36, 40)) as u32,
        vertical_speed_raw: as_signed_16(le_value(area.subrange(40, 42))) as i16,
        on_ground_flag: le_value(area.subrange(42, 46)) as u32,
        aircraft_type: area.subrange(46, 70),
        atc_id: area.subrange(70, 82),
    }
}

/// What a tick yields: the fields of the staging area after the response was
/// copied into it, starting from zeros; or why it yields nothing.
pub open spec fn tick_reading(send_result: isize, block: Seq<u8>) -> Result<
    FsuipcDataView,
    FsuipcError,
> {
    match session_outcome(send_result, block) {
        Err(e) => Err(FsuipcError::Session(e)),
        Ok(deliveries) => match staged(zeros(STAGING_LEN as nat), deliveries) {
            Err(e) => Err(e),
            Ok(area) => Ok(area_reading(area)),
        },
    }
}

/// The outcome of a tick with the fields as the values they hold.
pub open spec fn tick_view(outcome: Result<FsuipcData, FsuipcError>) -> Result<
    FsuipcDataView,
    FsuipcError,
> {
    match outcome {
        Ok(data) => Ok(data@),
        Err(e) => Err(e),
    }
}

/// Copies one delivery into the area, or leaves the area as it is and says
/// `false` where the delivery does not fit.
pub fn place(area: &mut Vec<u8>, delivery: &Delivery) -> (fits: bool)
    ensures
        match placed(old(area)@, delivery.target, delivery.data@) {
            Some(next) => fits && final(area)@ == next,
            None => !fits && final(area)@ == old(area)@,
        },
{
    let len: usize = delivery.data.len();
    if delivery.target > area.len() as u64 {
        return false;
    }
    let start: usize = delivery.target as usize;
    if area.len() - start < len {
        return false;
    }
    let mut i: usize = 0;
    while i < len
        invariant
            i <= len,
            len == delivery.data@.len(),
            start + len <= area@.len(),
            start + len <= usize::MAX,
            area@.len() == old(area)@.len(),
            area@ == old(area)@.subrange(0, start as int) + delivery.data@.take(i as int) + old(
                area,
            )@.subrange(start + i, old(area)@.len() as int),
        decreases len - i,
    {
        area.set(start + i, delivery.data[i]);
        i += 1;
        assert(area@ =~= old(area)@.subrange(0, start as int) + delivery.data@.take(i as int)
            + old(area)@.subrange(start + i, old(area)@.len() as int));
    }
    assert(delivery.data@.take(len as int) =~= delivery.data@);
    true
}

/// Copies the deliveries of a response into a fresh staging area.
pub fn stage(deliveries: &Vec<Delivery>) -> (outcome: Result<Vec<u8>, FsuipcError>)
    ensures
        match outcome {
            Ok(area) => area@.len() == STAGING_LEN && staged(
                zeros(STAGING_LEN as nat),
                deliveries_view(deliveries@),
            ) == Ok::<Seq<u8>, FsuipcError>(area@),
            Err(e) => staged(zeros(STAGING_LEN as nat), deliveries_view(deliveries@)) == Err::<
                Seq<u8>,
                FsuipcError,
            >(e),
        },
{
    let mut area: Vec<u8> = Vec::new();
    let mut n: usize = 0;
    while n < STAGING_LEN
        invariant
            n <= STAGING_LEN,
            area@ =~= zeros(n as nat),
        decreases STAGING_LEN - n,
    {
        area.push(0u8);
        n += 1;
    }
    let ghost all = deliveries_view(deliveries@);
    let mut i: usize = 0;
    assert(all.skip(0) =~= all);
    while i < deliveries.len()
        invariant
            i <= deliveries@.len(),
            all == deliveries_view(deliveries@),
            area@.len() == STAGING_LEN,
            staged(zeros(STAGING_LEN as nat), all) == staged(area@, all.skip(i as int)),
        decreases deliveries@.len() - i,
    {
        let ghost rest = all.skip(i as int);
        assert(rest[0] == deliveries@[i as int]@);
        assert(rest.drop_first() =~= all.skip(i + 1));
        if !place(&mut area, &deliveries[i]) {
            return Err(
                FsuipcError::StrayDelivery {
                    target: deliveries[i].target,
                    len: deliveries[i].data.len(),
                },
            );
        }
        i += 1;
    }
    Ok(area)
}

/// An optional set of fields as the values it holds.
pub open spec fn fields_view(data: Option<FsuipcData>) -> Option<FsuipcDataView> {
    match data {
        Some(d) => Some(d@),
        None => None,
    }
}

/// Reads the fields from a staging area, or nothing from a buffer that is
/// shorter than one.
pub fn decode_area(area: &[u8]) -> (data: Option<FsuipcData>)
    ensures
        fields_view(data) == if area@.len() >= STAGING_LEN {
            Some(area_reading(area@))
        } else {
            None
        },
{
    if area.len() < STAGING_LEN {
        return None;
    }
    let latitude = u64_at(area, 0);
    let longitude = u64_at(area, 8);
    let altitude = u64_at(area, 16);
    let ground_speed_raw = u32_at(area, 24);
    let heading = u64_at(area, 28);
    let fuel_gallons = u32_at(area, 36);
    let vertical_speed_raw = i16_at(area, 40);
    let on_ground_flag = u32_at(area, 42);
    Some(
        FsuipcData {
            latitude: latitude.unwrap(),
            longitude: longitude.unwrap(),
            altitude: altitude.unwrap(),
            ground_speed_raw: ground_speed_raw.unwrap(),
            heading: heading.unwrap(),
            fuel_gallons: fuel_gallons.unwrap(),
            vertical_speed_raw: vertical_speed_raw.unwrap(),
            on_ground_flag: on_ground_flag.unwrap(),
            aircraft_type: slice_to_vec(slice_subrange(area, 46, 70)),
            atc_id: slice_to_vec(slice_subrange(area, 70, 82)),
        },
    )
}

/// The shared-memory client: whether its connection is open, and whether it
/// polls.
#[derive(Debug, Clone, Copy, PartialEq, Eq)]
pub struct FsuipcConnection {
    connected: bool,
    running: bool,
}

impl FsuipcConnection {
    /// Whether the connection is open.
    pub closed spec fn connected(&self) -> bool {
        self.connected
    }

    /// Whether the client polls.
    pub closed spec fn running(&self) -> bool {
        self.running
    }

    /// A client without a connection, not polling.
    pub fn new() -> (client: Self)
        ensures
            !client.connected(),
            !client.running(),
    {
        FsuipcConnection { connected: false, running: false }
    }

    /// Records how opening the connection ended: the client is connected
    /// from now on where it succeeded, and unchanged where it failed.
    pub fn connect(&mut self, opened: Result<(), IpcError>) -> (outcome: Result<(), IpcError>)
        ensures
            outcome == opened,
            final(self).connected() == (opened is Ok || old(self).connected()),
            final(self).running() == old(self).running(),
    {
        if opened.is_ok() {
            self.connected = true;
        }
        opened
    }

    /// Starts polling, unless the client polls already.
    pub fn start(&mut self) -> (outcome: Result<(), AlreadyRunning>)
        ensures
            outcome is Ok <==> !old(self).running(),
            final(self).running(),
            final(self).connected() == old(self).connected(),
    {
        if self.running {
            return Err(AlreadyRunning);
        }
        self.running = true;
        Ok(())
    }

    /// Stops polling.
    pub fn stop(&mut self)
        ensures
            !final(self).running(),
            final(self).connected() == old(self).connected(),
    {
        self.running = false;
    }

    /// Stops polling and gives up the connection.
    pub fn disconnect(&mut self)
        ensures
            !final(self).running(),
            !final(self).connected(),
    {
        self.stop();
        self.connected = false;
    }

    /// Whether the connection is open.
    pub fn is_connected(&self) -> (answer: bool)
        ensures
            answer == self.connected(),
    {
        self.connected
    }

    /// Whether the client polls.
    pub fn is_running(&self) -> (answer: bool)
        ensures
            answer == self.running(),
    {
        self.running
    }

    /// Writes the requests of one tick into a session: one read per field of
    /// the table, each with its place in the staging area as destination.
    /// A session with room for them all takes them all; any other takes as
    /// much of them as fits and fails.
    pub fn request_reads(session: &mut UserSession64) -> (outcome: Result<(), IpcError>)
        ensures
            batch_request(FIELD_COUNT as nat).len() == 282,
            old(session).room() >= 282 ==> {
                &&& outcome == Ok::<(), IpcError>(())
                &&& final(session).request() == old(session).request() + batch_request(
                    FIELD_COUNT as nat,
                )
                &&& final(session).room() == old(session).room() - 282
            },
            old(session).room() < 282 ==> {
                &&& outcome == Err::<(), IpcError>(IpcError::WriteZero)
                &&& final(session).request() == old(session).request() + batch_request(
                    FIELD_COUNT as nat,
                ).take(old(session).room() as int)
                &&& final(session).room() == 0
            },
    {
        let table = read_table();
        let mut i: usize = 0;
        proof {
            lemma_batch_request_len(0);
            assert(old(session).request() + batch_request(0) =~= old(session).request());
        }
        while i < FIELD_COUNT
            invariant
                i <= FIELD_COUNT,
                table@.len() == FIELD_COUNT,
                forall|k: int|
                    0 <= k < FIELD_COUNT ==> (#[trigger] table@[k])@ == table_entry(k as nat),
                batch_request(FIELD_COUNT as nat).len() == 282,
                batch_request(i as nat).len() == 20 * i + staging_offset(i as nat),
                staging_offset(i as nat) <= STAGING_LEN,
                batch_request(i as nat).len() <= old(session).room(),
                session.request() == old(session).request() + batch_request(i as nat),
                session.room() == old(session).room() - batch_request(i as nat).len(),
            decreases FIELD_COUNT - i,
        {
            let field = table[i];
            proof {
                assert(field@ == table_entry(i as nat));
                lemma_batch_request_len(i as nat);
                lemma_batch_request_len((i + 1) as nat);
                lemma_read_request_len(field.offset, field.dest, field.len as nat);
            }
            let ghost record = read_request(field.offset, field.dest, field.len as nat);
            match session.read_bytes(field.offset, field.dest, field.len) {
                Ok(()) => {},
                Err(e) => {
                    proof {
                        let all = batch_request(FIELD_COUNT as nat);
                        let done = batch_request(i as nat);
                        let room = old(session).room() as int;
                        lemma_batch_request_prefix((i + 1) as nat, FIELD_COUNT as nat);
                        assert(all.take(room) =~= (done + record).take(room));
                        assert((done + record).take(room) =~= done + record.take(
                            room - done.len(),
                        ));
                        assert(session.request() =~= old(session).request() + all.take(room));
                    }
                    return Err(e);
                },
            }
            assert(session.request() =~= old(session).request() + batch_request((i + 1) as nat));
            i += 1;
        }
        Ok(())
    }

    /// Reads the fields of one tick: `send_result` is the simulator's answer
    /// to the window message, `block` the shared block after it.
    pub fn read_flight_data(send_result: isize, block: &[u8]) -> (outcome: Result<
        FsuipcData,
        FsuipcError,
    >)
        ensures
            tick_view(outcome) == tick_reading(send_result, block@),
    {
        let deliveries = match UserSession64::process(send_result, block) {
            Ok(list) => list,
            Err(e) => {
                return Err(FsuipcError::Session(e));
            },
        };
        match stage(&deliveries) {
            Ok(area) => match decode_area(area.as_slice()) {
                Some(data) => Ok(data),
                None => Err(FsuipcError::Session(IpcError::UnexpectedEof)),
            },
            Err(e) => Err(e),
        }
    }

    /// The snapshot for the fields of a tick: the ATC id as callsign and the
    /// first four characters of the aircraft type, both upper-cased, each
    /// replaced by its placeholder where it is empty; `measurements` are the
    /// tick's numbers in the snapshot's units.
    pub fn flight_data(
        record: &FsuipcData,
        measurements: Measurements,
        seconds: i64,
        nanos: u32,
    ) -> (data: Option<FlightData>)
        ensures
            snapshot_view(data) == stamped(
                callsign_or_placeholder(identifier_text(record.atc_id@)),
                aircraft_or_placeholder(identifier_text(record.aircraft_type@)),
                measurements,
                record.on_ground_flag != 0,
                rfc3339_text(seconds, nanos),
            ),
    {
        let callsign = callsign_or_unknown(parse_identifier(record.atc_id.as_slice()));
        let aircraft = parse_identifier(record.aircraft_type.as_slice());
        let aircraft_icao = aircraft_or_unknown(aircraft.as_str());
        FlightData::capture(
            callsign,
            aircraft_icao,
            measurements,
            record.on_ground_flag != 0,
            seconds,
            nanos,
        )
    }
}

impl Default for FsuipcConnection {
    /// A client without a connection, not polling.
    fn default() -> (client: Self)
        ensures
            !client.connected(),
            !client.running(),
    {
        FsuipcConnection::new()
    }
}

impl FsuipcError {
    /// The error in words.
    pub open spec fn message_text(self) -> Seq<char> {
        match self {
            FsuipcError::Session(e) => "Failed to process FSUIPC session: "@ + e.message_text(),
            FsuipcError::StrayDelivery { target, len } => "Failed to process FSUIPC session: "@
                + decimal_text(len as nat) + " bytes for destination "@ + decimal_text(
                target as nat,
            ) + " do not fit the staging area"@,
        }
    }

    /// The error in words.
    pub fn message(&self) -> (text: String)
        ensures
            text@ == self.message_text(),
    {
        let text = "Failed to process FSUIPC session: ".to_owned();
        match self {
            FsuipcError::Session(e) => text.concat(e.message().as_str()),
            FsuipcError::StrayDelivery { target, len } => {
                let text = text.concat(decimal(*len as u64).as_str());
                let text = text.concat(" bytes for destination ");
                let text = text.concat(decimal(*target).as_str());
                text.concat(" do not fit the staging area")
            },
        }
    }
}

/// What is said of a connection that could not be opened.
pub open spec fn connect_failure_text(error: IpcError) -> Seq<char> {
    "Failed to connect to FSUIPC: "@ + error.message_text()
}

/// What is said of a connection that could not be opened.
pub fn connect_failure(error: &IpcError) -> (text: String)
    ensures
        text@ == connect_failure_text(*error),
{
    "Failed to connect to FSUIPC: ".to_owned().concat(error.message().as_str())
}


/// The reads of a tick as the simulator answers them: each field of the
/// table with its place in the staging area and the value given for it.
pub open spec fn answered_fields(values: Seq<Seq<u8>>) -> Seq<(u16, u64, Seq<u8>)> {
    Seq::new(
        FIELD_COUNT as nat,
        |i: int| (offset_table()[i].0, staging_offset(i as nat) as u64, values[i]),
    )
}

/// Whether `values` holds one value for each field of the table, of the
/// field's width.
pub open spec fn fits_table(values: Seq<Seq<u8>>) -> bool {
    &&& values.len() == FIELD_COUNT
    &&& forall|i: int| 0 <= i < FIELD_COUNT ==> (#[trigger] values[i]).len() == offset_table()[i].1
}

/// The first `count` values, one behind the other.
pub open spec fn joined(values: Seq<Seq<u8>>, count: nat) -> Seq<u8>
    decreases count,
{
    if count == 0 || count > values.len() {
        Seq::empty()
    } else {
        joined(values, (count - 1) as nat) + values[count - 1]
    }
}

proof fn lemma_joined_len(values: Seq<Seq<u8>>, count: nat)
    requires
        fits_table(values),
        count <= FIELD_COUNT,
    ensures
        joined(values, count).len() == staging_offset(count),
        staging_offset(count) <= STAGING_LEN,
    decreases count,
{
    reveal_with_fuel(staging_offset, 11);
    if count > 0 {
        lemma_joined_len(values, (count - 1) as nat);
    }
}

proof fn lemma_staging_fills_up(values: Seq<Seq<u8>>, count: nat)
    requires
        fits_table(values),
        count <= FIELD_COUNT,
    ensures
        staged(
            joined(values, count) + zeros((STAGING_LEN - staging_offset(count)) as nat),
            expected_deliveries(answered_fields(values)).skip(count as int),
        ) == Ok::<Seq<u8>, FsuipcError>(joined(values, FIELD_COUNT as nat)),
    decreases FIELD_COUNT - count,
{
    let deliveries = expected_deliveries(answered_fields(values));
    let done = joined(values, count);
    lemma_joined_len(values, count);
    lemma_joined_len(values, FIELD_COUNT as nat);
    if count == FIELD_COUNT {
        lemma_staging_offsets();
        assert(deliveries.skip(count as int) =~= Seq::empty());
        assert(done + zeros(0) =~= done);
    } else {
        let area = done + zeros((STAGING_LEN - staging_offset(count)) as nat);
        let value = values[count as int];
        let rest = deliveries.skip(count as int);
        assert(rest[0] == (staging_offset(count) as u64, value));
        assert(rest.drop_first() =~= deliveries.skip(count as int + 1));
        lemma_joined_len(values, count + 1);
        let next = joined(values, count + 1) + zeros(
            (STAGING_LEN - staging_offset(count + 1)) as nat,
        );
        assert(area.subrange(0, done.len() as int) + value + area.subrange(
            (done.len() + value.len()) as int,
            area.len() as int,
        ) =~= next);
        assert(placed(area, staging_offset(count) as u64, value) == Some(next));
        lemma_staging_fills_up(values, count + 1);
    }
}

proof fn lemma_joined_unfolds(values: Seq<Seq<u8>>, count: nat)
    requires
        fits_table(values),
        0 < count <= FIELD_COUNT,
    ensures
        joined(values, count) == joined(values, (count - 1) as nat) + values[count - 1],
        joined(values, count).len() == staging_offset(count),
        joined(values, (count - 1) as nat).len() == staging_offset((count - 1) as nat),
{
    lemma_joined_len(values, count);
    lemma_joined_len(values, (count - 1) as nat);
}

proof fn lemma_joined_holds_field(values: Seq<Seq<u8>>, index: nat, count: nat)
    requires
        fits_table(values),
        index < count <= FIELD_COUNT,
    ensures
        staging_offset(index) + values[index as int].len() <= joined(values, count).len(),
        joined(values, count).subrange(
            staging_offset(index) as int,
            (staging_offset(index) + values[index as int].len()) as int,
        ) == values[index as int],
    decreases count,
{
    lemma_joined_unfolds(values, count);
    let shorter = joined(values, (count - 1) as nat);
    let last = values[count - 1];
    if index + 1 == count {
        assert((shorter + last).subrange(
            shorter.len() as int,
            (shorter.len() + last.len()) as int,
        ) =~= last);
    } else {
        lemma_joined_holds_field(values, index, (count - 1) as nat);
        let from = staging_offset(index) as int;
        let to = (staging_offset(index) + values[index as int].len()) as int;
        assert((shorter + last).subrange(from, to) =~= shorter.subrange(from, to));
    }
}

proof fn lemma_staging_offsets()
    ensures
        staging_offset(0) == 0,
        staging_offset(1) == 8,
        staging_offset(2) == 16,
        staging_offset(3) == 24,
        staging_offset(4) == 28,
        staging_offset(5) == 36,
        staging_offset(6) == 40,
        staging_offset(7) == 42,
        staging_offset(8) == 46,
        staging_offset(9) == 70,
        staging_offset(10) == 82,
{
    reveal_with_fuel(staging_offset, 11);
}

proof fn lemma_joined_reads_as_values(values: Seq<Seq<u8>>)
    requires
        fits_table(values),
    ensures
        area_reading(joined(values, FIELD_COUNT as nat)) == (FsuipcDataView {
            latitude: le_value(values[0]) as u64,
            longitude: le_value(values[1]) as u64,
            altitude: le_value(values[2]) as u64,
            ground_speed_raw: le_value(values[3]) as u32,
            heading: le_value(values[4]) as u64,
            fuel_gallons: le_value(values[5]) as u32,
            vertical_speed_raw: as_signed_16(le_value(values[6])) as i16,
            on_ground_flag: le_value(values[7]) as u32,
            aircraft_type: values[8],
            atc_id: values[9],
        }),
{
    lemma_staging_offsets();
    lemma_joined_holds_field(values, 0, 10);
    lemma_joined_holds_field(values, 1, 10);
    lemma_joined_holds_field(values, 2, 10);
    lemma_joined_holds_field(values, 3, 10);
    lemma_joined_holds_field(values, 4, 10);
    lemma_joined_holds_field(values, 5, 10);
    lemma_joined_holds_field(values, 6, 10);
    lemma_joined_holds_field(values, 7, 10);
    lemma_joined_holds_field(values, 8, 10);
    lemma_joined_holds_field(values, 9, 10);
}

/// Round trip of a tick: where the simulator answers each request of the
/// batch with a value of the field's width, the tick yields every field as
/// read from the value given for it, whatever the block holds behind the
/// response.
pub proof fn lemma_tick_round_trip(values: Seq<Seq<u8>>, rest: Seq<u8>)
    requires
        fits_table(values),
    ensures
        tick_reading(FS6IPC_MESSAGE_SUCCESS, answered(answered_fields(values)) + rest) == Ok::<
            FsuipcDataView,
            FsuipcError,
        >(
            FsuipcDataView {
                latitude: le_value(values[0]) as u64,
                longitude: le_value(values[1]) as u64,
                altitude: le_value(values[2]) as u64,
                ground_speed_raw: le_value(values[3]) as u32,
                heading: le_value(values[4]) as u64,
                fuel_gallons: le_value(values[5]) as u32,
                vertical_speed_raw: as_signed_16(le_value(values[6])) as i16,
                on_ground_flag: le_value(values[7]) as u32,
                aircraft_type: values[8],
                atc_id: values[9],
            },
        ),
{
    let reads = answered_fields(values);
    assert forall|i: int| 0 <= i < reads.len() implies (#[trigger] reads[i]).2.len()
        < 0x1_0000_0000 by {
        assert(reads[i].2 == values[i]);
    }
    lemma_answered_round_trip(reads, rest);
    assert(expected_deliveries(reads).skip(0) =~= expected_deliveries(reads));
    assert(joined(values, 0) + zeros(STAGING_LEN as nat) =~= zeros(STAGING_LEN as nat));
    lemma_staging_offsets();
    lemma_staging_fills_up(values, 0);
    lemma_joined_reads_as_values(values);
}

} // verus!
