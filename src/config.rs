//! Startup settings: the file-system roots read, the daemons' control
//! sockets and the listen address, with their defaults.

use vstd::prelude::*;
use vstd::string::*;

verus! {

pub struct Config {
    pub debug: bool,
    pub procfs_path: String,
    pub sysfs_path: String,
    pub kea_socket: String,
    pub unbound_socket: String,
    pub hyper_addr: String,
}

pub open spec fn or_default(v: Option<String>, d: Seq<char>) -> Seq<char> {
    match v {
        Some(s) => s@,
        None => d,
    }
}

fn value_or(v: Option<String>, d: &str) -> (r: String)
    ensures
        r@ == or_default(v, d@),
{
    match v {
        Some(s) => s,
        None => String::from_str(d),
    }
}

/// The settings from the values given on the command line; each one not
/// given takes its default.
pub fn get(
    debug: bool,
    addr: Option<String>,
    kea_socket: Option<String>,
    unbound_socket: Option<String>,
) -> (r: Config)
    ensures
        r.debug == debug,
        r.procfs_path@ == "/proc"@,
        r.sysfs_path@ == "/sys"@,
        r.hyper_addr@ == or_default(addr, "0.0.0.0:9527"@),
        r.kea_socket@ == or_default(kea_socket, "/run/kea/kea4-ctrl-socket"@),
        r.unbound_socket@ == or_default(unbound_socket, "/run/unbound.ctl"@),
{
    Config {
        debug,
        procfs_path: String::from_str("/proc"),
        sysfs_path: String::from_str("/sys"),
        kea_socket: value_or(kea_socket, "/run/kea/kea4-ctrl-socket"),
        unbound_socket: value_or(unbound_socket, "/run/unbound.ctl"),
        hyper_addr: value_or(addr, "0.0.0.0:9527"),
    }
}

} // verus!
