//! The server settings of a run: host, port and connection string, each
//! set once, with defaults where they were never set.
use vstd::prelude::*;
use crate::server::{DEFAULT_SERVER_HOST, DEFAULT_SERVER_PORT};
use crate::text::{chars_of, decimal, decimal_exec, push_all, push_str, string_of};

verus! {

/// The connection string for a server at `host` and `port`.
pub open spec fn connection_string_of(host: Seq<char>, port: u16) -> Seq<char> {
    "host="@ + host + " port="@ + decimal(port as nat) + " user=stackql dbname=stackql application_name=stackql"@
}

pub struct ServerSettingsView {
    pub host: Option<Seq<char>>,
    pub port: Option<u16>,
    pub connection_string: Option<Seq<char>>,
}

/// Server settings that are set once: the first initialization wins.
pub struct ServerSettings {
    host: Option<String>,
    port: Option<u16>,
    connection_string: Option<String>,
}

impl View for ServerSettings {
    type V = ServerSettingsView;

    closed spec fn view(&self) -> ServerSettingsView {
        ServerSettingsView {
            host: match self.host { Some(h) => Some(h@), None => None },
            port: self.port,
            connection_string: match self.connection_string { Some(c) => Some(c@), None => None },
        }
    }
}

/// The settings after an initialization with `host` and `port`: a value
/// that was set stays.
pub open spec fn initialized(s: ServerSettingsView, host: Seq<char>, port: u16) -> ServerSettingsView {
    ServerSettingsView {
        host: if s.host is Some { s.host } else { Some(host) },
        port: if s.port is Some { s.port } else { Some(port) },
        connection_string: if s.connection_string is Some {
            s.connection_string
        } else {
            Some(connection_string_of(host, port))
        },
    }
}

/// The host: the one set, or `localhost`.
pub open spec fn host_of(s: ServerSettingsView) -> Seq<char> {
    match s.host { Some(h) => h, None => "localhost"@ }
}

/// The port: the one set, or the default port.
pub open spec fn port_of(s: ServerSettingsView) -> u16 {
    match s.port { Some(p) => p, None => DEFAULT_SERVER_PORT }
}

impl ServerSettings {
    /// Settings of which nothing is set yet.
    pub fn new() -> (s: Self)
        ensures
            s@ == (ServerSettingsView { host: None, port: None, connection_string: None }),
    {
        ServerSettings { host: None, port: None, connection_string: None }
    }

    /// Initialize the host, the port and the connection string; each keeps
    /// a value that an earlier initialization set.
    pub fn init_globals(&mut self, host: String, port: u16)
        ensures
            final(self)@ == initialized(old(self)@, host@, port),
    {
        let mut t = chars_of("host=");
        push_str(&mut t, host.as_str());
        push_str(&mut t, " port=");
        let d = decimal_exec(port as u64);
        push_all(&mut t, d.as_slice());
        push_str(&mut t, " user=stackql dbname=stackql application_name=stackql");
        let conn = string_of(t.as_slice());
        if self.host.is_none() {
            self.host = Some(host);
        }
        if self.port.is_none() {
            self.port = Some(port);
        }
        if self.connection_string.is_none() {
            self.connection_string = Some(conn);
        }
    }

    /// The configured server host, or the default host.
    pub fn server_host(&self) -> (h: &str)
        ensures
            h@ == host_of(self@),
    {
        match &self.host {
            Some(h) => h.as_str(),
            None => DEFAULT_SERVER_HOST,
        }
    }

    /// The configured server port, or the default port.
    pub fn server_port(&self) -> (p: u16)
        ensures
            p == port_of(self@),
    {
        match self.port {
            Some(p) => p,
            None => DEFAULT_SERVER_PORT,
        }
    }

    /// The connection string, where the settings were initialized.
    pub fn connection_string(&self) -> (c: Option<&String>)
        ensures
            match c {
                Some(s) => self@.connection_string == Some(s@),
                None => self@.connection_string is None,
            },
    {
        match &self.connection_string {
            Some(c) => Some(c),
            None => None,
        }
    }
}

/// After an initialization, the getters give what it set; a second
/// initialization changes nothing.
pub proof fn law_first_initialization_wins(s: ServerSettingsView, h1: Seq<char>, p1: u16, h2: Seq<char>, p2: u16)
    requires
        s.host is None,
        s.port is None,
        s.connection_string is None,
    ensures
        host_of(initialized(s, h1, p1)) == h1,
        port_of(initialized(s, h1, p1)) == p1,
        initialized(initialized(s, h1, p1), h2, p2) == initialized(s, h1, p1),
{
}

/// Before any initialization the getters give the defaults.
pub proof fn law_defaults_before_initialization()
    ensures
        host_of(ServerSettingsView { host: None, port: None, connection_string: None }) == "localhost"@,
        port_of(ServerSettingsView { host: None, port: None, connection_string: None }) == 5444,
{
}

} // verus!
