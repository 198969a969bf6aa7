//! The datagram transport of X-Plane: one fixed packet per datagram.
//!
//! A packet is 64 bytes, numbers little-endian: the tag `XPU` in bytes 0 to
//! 2, a version in byte 4, latitude, longitude, altitude (metres) and heading
//! as doubles from byte 8, ground speed (m/s), vertical speed (m/s) and fuel
//! (pounds) as floats from byte 40, the on-ground flag in byte 52. The rest
//! is padding.

use crate::simulator::{
    rfc3339_text, snapshot_view, stamped, AlreadyRunning, FlightData, Measurements,
};
use crate::wire::{le_value, u32_at, u64_at};
use crate::text::{decimal, decimal_text};
use vstd::prelude::*;

verus! {

/// The length of a packet.
pub const PACKET_LEN: usize = 64;

/// The port on which the simulator's plugin broadcasts.
pub const DEFAULT_PORT: u16 = 49000;

/// The longest wait for a datagram, in milliseconds.
pub const RECEIVE_TIMEOUT_MS: u64 = 100;

/// The pause between two ticks, in milliseconds: two ticks a second.
pub const TICK_MS: u64 = 500;

/// The fields of a packet. Doubles and floats are kept as their IEEE 754 bit
/// patterns.
#[derive(Debug, Clone, Copy, PartialEq, Eq)]
pub struct XpuipcData {
    pub version: u8,
    /// Degrees, a double.
    pub latitude: u64,
    /// Degrees, a double.
    pub longitude: u64,
    /// Metres, a double.
    pub altitude: u64,
    /// Degrees, a double.
    pub heading: u64,
    /// Metres per second, a float.
    pub ground_speed: u32,
    /// Metres per second, a float.
    pub vertical_speed: u32,
    /// Pounds, a float.
    pub fuel_total: u32,
    /// Zero in the air.
    pub on_ground: u8,
}

/// Why a datagram is no packet.
#[derive(Debug, Clone, Copy, PartialEq, Eq)]
pub enum PacketError {
    /// It is shorter than a packet.
    BufferTooSmall,
    /// It does not start with the tag.
    InvalidMagic,
}

/// Whether a buffer starts with the tag `XPU`.
pub open spec fn tagged(buffer: Seq<u8>) -> bool {
    buffer.len() >= 3 && buffer[0] == 0x58 && buffer[1] == 0x50 && buffer[2] == 0x55
}

/// What a datagram reads as: its fields, or why it is refused.
pub open spec fn packet_reading(buffer: Seq<u8>) -> Result<XpuipcData, PacketError> {
    if buffer.len() < PACKET_LEN {
        Err(PacketError::BufferTooSmall)
    } else if !tagged(buffer) {
        Err(PacketError::InvalidMagic)
    } else {
        Ok(
            XpuipcData {
                version: buffer[4],
                latitude: le_value(buffer.subrange(8, 16)) as u64,
                longitude: le_value(buffer.subrange(16, 24)) as u64,
                altitude: le_value(buffer.subrange(24, 32)) as u64,
                heading: le_value(buffer.subrange(32, 40)) as u64,
                ground_speed: le_value(buffer.subrange(40, 44)) as u32,
                vertical_speed: le_value(buffer.subrange(44, 48)) as u32,
                fuel_total: le_value(buffer.subrange(48, 52)) as u32,
                on_ground: buffer[52],
            },
        )
    }
}

/// Why the listener could not be set up; the text is the host's.
#[derive(Debug, Clone, PartialEq, Eq)]
pub enum SocketError {
    /// The port could not be bound.
    Bind(String),
    /// The receive timeout could not be set.
    SetTimeout(String),
}

/// The datagram client: whether its listener is bound, whether it polls, and
/// its port.
#[derive(Debug, Clone, Copy, PartialEq, Eq)]
pub struct XpuipcConnection {
    connected: bool,
    running: bool,
    port: u16,
}

impl XpuipcConnection {
    /// Whether the listener is bound.
    pub closed spec fn connected(&self) -> bool {
        self.connected
    }

    /// Whether the client polls.
    pub closed spec fn running(&self) -> bool {
        self.running
    }

    /// The local port of the listener.
    pub closed spec fn local_port(&self) -> u16 {
        self.port
    }

    /// A client for `port`, neither bound nor polling.
    pub fn new(port: u16) -> (client: Self)
        ensures
            !client.connected(),
            !client.running(),
            client.local_port() == port,
    {
        XpuipcConnection { connected: false, running: false, port }
    }

    /// The local port of the listener.
    pub fn port(&self) -> (port: u16)
        ensures
            port == self.local_port(),
    {
        self.port
    }

    /// Records how binding the listener ended: the client is connected from
    /// now on where it succeeded, and unchanged where it failed.
    pub fn connect(&mut self, bound: Result<(), SocketError>) -> (outcome: Result<(), SocketError>)
        ensures
            outcome == bound,
            final(self).connected() == (bound is Ok || old(self).connected()),
            final(self).running() == old(self).running(),
            final(self).local_port() == old(self).local_port(),
    {
        if bound.is_ok() {
            self.connected = true;
        }
        bound
    }

    /// Starts polling, unless the client polls already.
    pub fn start(&mut self) -> (outcome: Result<(), AlreadyRunning>)
        ensures
            outcome is Ok <==> !old(self).running(),
            final(self).running(),
            final(self).connected() == old(self).connected(),
            final(self).local_port() == old(self).local_port(),
    {
        if self.running {
            return Err(AlreadyRunning);
        }
        self.running = true;
        Ok(())
    }

    /// Stops polling.
    pub fn stop(&mut self)
        ensures
            !final(self).running(),
            final(self).connected() == old(self).connected(),
            final(self).local_port() == old(self).local_port(),
    {
        self.running = false;
    }

    /// Stops polling and gives up the listener.
    pub fn disconnect(&mut self)
        ensures
            !final(self).running(),
            !final(self).connected(),
            final(self).local_port() == old(self).local_port(),
    {
        self.stop();
        self.connected = false;
    }

    /// Whether the listener is bound.
    pub fn is_connected(&self) -> (answer: bool)
        ensures
            answer == self.connected(),
    {
        self.connected
    }

    /// Whether the client polls.
    pub fn is_running(&self) -> (answer: bool)
        ensures
            answer == self.running(),
    {
        self.running
    }

    /// Reads a datagram as a packet. A buffer shorter than a packet, or one
    /// without the tag, is refused.
    pub fn parse_xpuipc_data(buffer: &[u8]) -> (outcome: Result<XpuipcData, PacketError>)
        ensures
            outcome == packet_reading(buffer@),
    {
        if buffer.len() < PACKET_LEN {
            return Err(PacketError::BufferTooSmall);
        }
        if buffer[0] != 0x58 || buffer[1] != 0x50 || buffer[2] != 0x55 {
            return Err(PacketError::InvalidMagic);
        }
        let latitude = u64_at(buffer, 8);
        let longitude = u64_at(buffer, 16);
        let altitude = u64_at(buffer, 24);
        let heading = u64_at(buffer, 32);
        let ground_speed = u32_at(buffer, 40);
        let vertical_speed = u32_at(buffer, 44);
        let fuel_total = u32_at(buffer, 48);
        match (
            latitude,
            longitude,
            altitude,
            heading,
            ground_speed,
            vertical_speed,
            fuel_total,
        ) {
            (
                Some(latitude),
                Some(longitude),
                Some(altitude),
                Some(heading),
                Some(ground_speed),
                Some(vertical_speed),
                Some(fuel_total),
            ) => Ok(
                XpuipcData {
                    version: buffer[4],
                    latitude,
                    longitude,
                    altitude,
                    heading,
                    ground_speed,
                    vertical_speed,
                    fuel_total,
                    on_ground: buffer[52],
                },
            ),
            _ => Err(PacketError::BufferTooSmall),
        }
    }

    /// The packet of one tick, if the datagram received in it is one: a
    /// datagram that is refused is dropped without an error.
    pub fn on_datagram(datagram: &[u8]) -> (packet: Option<XpuipcData>)
        ensures
            packet == match packet_reading(datagram@) {
                Ok(data) => Some(data),
                Err(_) => None,
            },
    {
        match Self::parse_xpuipc_data(datagram) {
            Ok(data) => Some(data),
            Err(_) => None,
        }
    }

    /// The snapshot for a packet. The transport knows neither callsign nor
    /// aircraft type, so both are the placeholders; `measurements` are the
    /// packet's numbers in the snapshot's units.
    pub fn flight_data(
        packet: &XpuipcData,
        measurements: Measurements,
        seconds: i64,
        nanos: u32,
    ) -> (data: Option<FlightData>)
        ensures
            snapshot_view(data) == stamped(
                "UNKNOWN"@,
                "UNKN"@,
                measurements,
                packet.on_ground != 0,
                rfc3339_text(seconds, nanos),
            ),
    {
        FlightData::capture(
            "UNKNOWN".to_owned(),
            "UNKN".to_owned(),
            measurements,
            packet.on_ground != 0,
            seconds,
            nanos,
        )
    }
}

impl Default for XpuipcConnection {
    /// A client for the default port.
    fn default() -> (client: Self)
        ensures
            !client.connected(),
            !client.running(),
            client.local_port() == DEFAULT_PORT,
    {
        XpuipcConnection::new(DEFAULT_PORT)
    }
}

impl PacketError {
    /// The error in words.
    pub open spec fn message_text(self) -> Seq<char> {
        match self {
            PacketError::BufferTooSmall => "Buffer too small"@,
            PacketError::InvalidMagic => "Invalid XPUIPC magic number"@,
        }
    }

    /// The error in words.
    pub fn message(&self) -> (text: String)
        ensures
            text@ == self.message_text(),
    {
        match self {
            PacketError::BufferTooSmall => "Buffer too small".to_owned(),
            PacketError::InvalidMagic => "Invalid XPUIPC magic number".to_owned(),
        }
    }
}

impl SocketError {
    /// The error in words.
    pub open spec fn message_text(self) -> Seq<char> {
        match self {
            SocketError::Bind(detail) => "Failed to bind UDP socket: "@ + detail@,
            SocketError::SetTimeout(detail) => "Failed to set socket timeout: "@ + detail@,
        }
    }

    /// The error in words.
    pub fn message(&self) -> (text: String)
        ensures
            text@ == self.message_text(),
    {
        match self {
            SocketError::Bind(detail) => "Failed to bind UDP socket: ".to_owned().concat(
                detail.as_str(),
            ),
            SocketError::SetTimeout(detail) => "Failed to set socket timeout: ".to_owned().concat(
                detail.as_str(),
            ),
        }
    }
}

/// The local address of a listener: the loopback address and the port.
pub open spec fn bind_address_text(port: u16) -> Seq<char> {
    "127.0.0.1:"@ + decimal_text(port as nat)
}

impl XpuipcConnection {
    /// The local address to bind the listener to.
    pub fn bind_address(&self) -> (address: String)
        ensures
            address@ == bind_address_text(self.local_port()),
    {
        "127.0.0.1:".to_owned().concat(decimal(self.port as u64).as_str())
    }
}


/// Malformed datagrams yield nothing: a datagram is refused exactly where it
/// is shorter than a packet or does not start with the tag, and a refused
/// datagram is dropped; any other yields its packet.
pub proof fn lemma_malformed_datagram_is_dropped(datagram: Seq<u8>)
    ensures
        datagram.len() < PACKET_LEN ==> packet_reading(datagram) == Err::<XpuipcData, PacketError>(
            PacketError::BufferTooSmall,
        ),
        datagram.len() >= PACKET_LEN && !tagged(datagram) ==> packet_reading(datagram) == Err::<
            XpuipcData,
            PacketError,
        >(PacketError::InvalidMagic),
        packet_reading(datagram) is Ok <==> datagram.len() >= PACKET_LEN && tagged(datagram),
{
}


} // verus!
