use skynet_client::simbrief::SimbriefError;
use skynet_client::simulator::fsuipc::{connect_failure, FsuipcError};
use skynet_client::simulator::fsuipc_user64::{IpcError, OpenStep};
use skynet_client::simulator::simconnect::SimConnectError;
use skynet_client::simulator::xpuipc::{PacketError, SocketError, XpuipcConnection};
use skynet_client::simulator::{SimulatorError, SimulatorType, Transport};
use skynet_client::text::same_text;

#[test]
fn manager_errors_in_words() {
    assert_eq!(SimulatorError::AlreadyRunning.message(), "Already running");
    assert_eq!(SimulatorError::NoSimulator.message(), "No simulator connected");
    assert_eq!(SimulatorError::NotConnected(Transport::Fsuipc).message(), "FSUIPC not connected");
    assert_eq!(
        SimulatorError::NotConnected(Transport::SimConnect).message(),
        "SimConnect not connected"
    );
    assert_eq!(SimulatorError::NotConnected(Transport::Xpuipc).message(), "XPUIPC not connected");
    assert_eq!(
        SimulatorError::UnsupportedPlatform(Transport::Fsuipc).message(),
        "FSUIPC is only supported on Windows."
    );
    assert_eq!(
        SimulatorError::UnsupportedPlatform(Transport::SimConnect).message(),
        "SimConnect is only supported on Windows."
    );
}

#[test]
fn ipc_errors_in_words() {
    assert_eq!(
        IpcError::ConnectionRefused(OpenStep::FindWindow).message(),
        "cannot connect to FSUIPC: cannot find UIPCMAIN window (is FSUIPC running?)"
    );
    assert_eq!(
        IpcError::ConnectionRefused(OpenStep::RegisterMessage).message(),
        "cannot connect to FSUIPC: cannot register window message"
    );
    assert_eq!(
        IpcError::ConnectionRefused(OpenStep::AddAtom).message(),
        "cannot connect to FSUIPC: cannot add global atom"
    );
    assert_eq!(
        IpcError::ConnectionRefused(OpenStep::CreateMapping).message(),
        "cannot connect to FSUIPC: cannot create file mapping"
    );
    assert_eq!(
        IpcError::ConnectionRefused(OpenStep::MapView).message(),
        "cannot connect to FSUIPC: cannot map view of file"
    );
    assert_eq!(IpcError::UnexpectedEof.message(), "IPC buffer underflow");
    assert_eq!(IpcError::WriteZero.message(), "failed to write whole buffer");
    assert_eq!(
        IpcError::Rejected(-7).message(),
        "FSUIPC rejected the requests with error -7; possible buffer corruption"
    );
    assert_eq!(
        IpcError::Rejected(0).message(),
        "FSUIPC rejected the requests with error 0; possible buffer corruption"
    );
    assert_eq!(
        IpcError::UnexpectedMessage(9).message(),
        "unexpected message id 9 while reading IPC response"
    );
}

#[test]
fn fsuipc_errors_in_words() {
    assert_eq!(
        FsuipcError::Session(IpcError::UnexpectedEof).message(),
        "Failed to process FSUIPC session: IPC buffer underflow"
    );
    assert_eq!(
        FsuipcError::StrayDelivery { target: 80, len: 8 }.message(),
        "Failed to process FSUIPC session: 8 bytes for destination 80 do not fit the staging area"
    );
    assert_eq!(
        connect_failure(&IpcError::ConnectionRefused(OpenStep::AddAtom)),
        "Failed to connect to FSUIPC: cannot connect to FSUIPC: cannot add global atom"
    );
}

#[test]
fn simconnect_errors_in_words() {
    assert_eq!(
        SimConnectError::OpenFailed(-2147467259).message(),
        "Failed to connect to SimConnect (is MSFS running?): HRESULT=-2147467259"
    );
    assert_eq!(
        SimConnectError::DefinitionFailed(3, 5).message(),
        "AddToDataDefinition GROUND VELOCITY failed: 5"
    );
    assert_eq!(
        SimConnectError::DefinitionFailed(9, -1).message(),
        "AddToDataDefinition ATC ID failed: -1"
    );
    assert_eq!(
        SimConnectError::DefinitionFailed(10, 1).message(),
        "AddToDataDefinition  failed: 1"
    );
    assert_eq!(
        SimConnectError::RequestFailed(i32::MIN).message(),
        "RequestDataOnSimObject failed: -2147483648"
    );
}

#[test]
fn xpuipc_errors_in_words() {
    assert_eq!(PacketError::BufferTooSmall.message(), "Buffer too small");
    assert_eq!(PacketError::InvalidMagic.message(), "Invalid XPUIPC magic number");
    assert_eq!(
        SocketError::Bind("Address already in use".to_string()).message(),
        "Failed to bind UDP socket: Address already in use"
    );
    assert_eq!(
        SocketError::SetTimeout("bad".to_string()).message(),
        "Failed to set socket timeout: bad"
    );
    assert_eq!(XpuipcConnection::default().bind_address(), "127.0.0.1:49000");
    assert_eq!(XpuipcConnection::new(0).bind_address(), "127.0.0.1:0");
    assert_eq!(XpuipcConnection::new(u16::MAX).bind_address(), "127.0.0.1:65535");
}

#[test]
fn simbrief_errors_in_words() {
    assert_eq!(SimbriefError::UsernameRequired.message(), "SimBrief username is required");
    assert_eq!(
        SimbriefError::RequestFailed("timed out".to_string()).message(),
        "SimBrief request failed: timed out"
    );
    assert_eq!(SimbriefError::HttpStatus(404).message(), "SimBrief request failed: HTTP 404");
    assert_eq!(
        SimbriefError::ParseFailed("EOF".to_string()).message(),
        "Failed to parse SimBrief response: EOF"
    );
}

#[test]
fn simulator_types_by_name() {
    assert_eq!(SimulatorType::from_name("MSFS"), Some(SimulatorType::MSFS));
    assert_eq!(SimulatorType::from_name("FSX"), Some(SimulatorType::FSX));
    assert_eq!(SimulatorType::from_name("P3D"), Some(SimulatorType::P3D));
    assert_eq!(SimulatorType::from_name("XPLANE"), Some(SimulatorType::XPLANE));
    assert_eq!(SimulatorType::from_name("msfs"), None);
    assert_eq!(SimulatorType::from_name(" MSFS"), None);
    assert_eq!(SimulatorType::from_name(""), None);
    for sim_type in
        [SimulatorType::MSFS, SimulatorType::FSX, SimulatorType::P3D, SimulatorType::XPLANE]
    {
        assert_eq!(SimulatorType::from_name(sim_type.name()), Some(sim_type));
    }
    assert_eq!(Transport::Fsuipc.name(), "FSUIPC");
    assert_eq!(Transport::SimConnect.name(), "SimConnect");
    assert_eq!(Transport::Xpuipc.name(), "XPUIPC");
    assert!(same_text("a", "a"));
    assert!(!same_text("a", "A"));
    assert!(same_text("", ""));
}
