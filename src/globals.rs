//! Where the query engine listens, and how to connect to it.

use vstd::prelude::*;
use crate::num::{decimal, decimal_text};
use crate::text::{owned, push_str};

verus! {

/// The query engine's host and port.
#[derive(Debug)]
pub struct ServerSettings {
    host: String,
    port: u16,
}

/// The connection string for a host and port.
pub open spec fn connection_text(host: Seq<char>, port: u16) -> Seq<char> {
    "host="@ + host + " port="@ + decimal_text(port as nat) + " user=stackql dbname=stackql application_name=stackql"@
}

/// Settings for a host and port.
pub fn init_globals(host: String, port: u16) -> (r: ServerSettings)
    ensures
        r.host_view() == host@,
        r.port_view() == port,
{
    ServerSettings { host, port }
}

impl ServerSettings {
    pub closed spec fn host_view(&self) -> Seq<char> {
        self.host@
    }

    pub closed spec fn port_view(&self) -> u16 {
        self.port
    }
}

/// The configured host.
pub fn server_host(s: &ServerSettings) -> (r: &str)
    ensures
        r@ == s.host_view(),
{
    s.host.as_str()
}

/// The configured port.
pub fn server_port(s: &ServerSettings) -> (r: u16)
    ensures
        r == s.port_view(),
{
    s.port
}

/// The string to connect to the query engine with.
pub fn connection_string(s: &ServerSettings) -> (r: String)
    ensures
        r@ == connection_text(s.host_view(), s.port_view()),
{
    let mut c = owned("host=");
    push_str(&mut c, s.host.as_str());
    push_str(&mut c, " port=");
    let p = decimal(s.port as u64);
    push_str(&mut c, p.as_str());
    push_str(&mut c, " user=stackql dbname=stackql application_name=stackql");
    c
}

} // verus!
