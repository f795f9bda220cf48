//! Settings of the application protocol.
use vstd::prelude::*;

verus! {

/// Settings of the application protocol: the local network interface that
/// overlay traffic is bridged to.
pub struct Config {
    pub interface_name: String,
}

/// The default settings: interface `vpnr0`.
pub fn new() -> (r: Config)
    ensures
        r.interface_name@ == "vpnr0"@,
{
    Config { interface_name: String::from_str("vpnr0") }
}

} // verus!
