//! Where the front end finds the flight stream.

use vstd::prelude::*;

verus! {

/// The settings of the WebSocket that carries the flight stream.
#[derive(Debug, Clone, PartialEq, Eq)]
pub struct WebSocketConfig {
    pub url: String,
    pub auto_reconnect: bool,
}

impl Default for WebSocketConfig {
    /// The local flight stream, reconnecting by itself.
    fn default() -> (config: Self)
        ensures
            config.url@ == "ws://localhost:3000/ws/skynet:flights"@,
            config.auto_reconnect,
    {
        WebSocketConfig {
            url: "ws://localhost:3000/ws/skynet:flights".to_owned(),
            auto_reconnect: true,
        }
    }
}

} // verus!
