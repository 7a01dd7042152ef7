//! The host's configuration and the plain records that widgets exchange.
use vstd::prelude::*;
use crate::rpc::RpcAction;

verus! {

/// A key chord bound to a lifecycle request for one widget.
#[derive(Clone, Debug, Default)]
pub struct KeyboardShortcuts {
    pub keys: Vec<String>,
    pub widget: String,
    pub action: RpcAction,
    pub url: Option<String>,
    pub widget_args: String,
}

/// The host's configuration: the port it listens on and its shortcuts.
#[derive(Clone, Debug, Default)]
pub struct SbbwConfig {
    pub port: u16,
    pub shortcuts: Vec<KeyboardShortcuts>,
}

/// The arguments a widget process is started with.
#[derive(Clone, Debug, Default)]
pub struct Args {
    pub url: String,
    pub widget_name: String,
    pub test: bool,
    pub args: Option<String>,
}

/// The wireless network a widget reports.
#[derive(Clone, Debug)]
pub struct WirelessInfo {
    pub ssid: String,
    pub quality: u8,
}

/// A display whose brightness a widget reads or sets.
#[derive(Clone, Debug)]
pub struct SbbwBrightnessDevice {
    pub name: String,
    pub value: u32,
}

} // verus!
