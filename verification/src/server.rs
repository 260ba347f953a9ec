//! The local query server: reading its processes, deciding when to start
//! or stop it, and the arguments it is started with.
use vstd::prelude::*;
use crate::templating::{lines, lines_exec, trim_start_chars};
use crate::text::{
    chars_of, find, find_exec, is_digit, is_ws, is_ws_char, parse_unsigned, parse_unsigned_exec,
    slice_chars, starts_with, starts_with_str, string_of, str_eq, trim, trim_chars, trim_start,
    views,
};

verus! {

/// The default server host.
pub const DEFAULT_SERVER_HOST: &'static str = "localhost";

/// The default server port.
pub const DEFAULT_SERVER_PORT: u16 = 5444;

/// Represents a running server process.
#[derive(Debug, Clone, Copy)]
pub struct RunningServer {
    pub pid: u32,
    pub port: u16,
}

/// Options for starting a server.
pub struct StartServerOptions {
    pub host: String,
    pub port: u16,
    pub registry: Option<String>,
    pub mtls_config: Option<String>,
    pub custom_auth_config: Option<String>,
    pub log_level: Option<String>,
}

impl Default for StartServerOptions {
    /// Options for `localhost` on the default port, with nothing else set.
    fn default() -> (o: Self)
        ensures
            o.host@ == "localhost"@,
            o.port == DEFAULT_SERVER_PORT,
            o.registry is None,
            o.mtls_config is None,
            o.custom_auth_config is None,
            o.log_level is None,
    {
        StartServerOptions {
            host: "localhost".to_owned(),
            port: DEFAULT_SERVER_PORT,
            registry: None,
            mtls_config: None,
            custom_auth_config: None,
            log_level: None,
        }
    }
}

/// The longest prefix of `s` made of decimal digits.
pub open spec fn leading_digits(s: Seq<char>) -> Seq<char>
    decreases s.len(),
{
    if s.len() > 0 && is_digit(s[0]) {
        seq![s[0]] + leading_digits(s.drop_first())
    } else {
        Seq::empty()
    }
}

/// The port written right after `pat` at its first occurrence in
/// `cmdline`, once `skip_ws` white space is skipped.
pub open spec fn port_after(cmdline: Seq<char>, pat: Seq<char>, skip_ws: bool) -> Option<nat> {
    match find(cmdline, pat) {
        Some(pos) => {
            let after = cmdline.subrange(pos + pat.len(), cmdline.len() as int);
            let rest = if skip_ws { trim_start(after) } else { after };
            parse_unsigned(leading_digits(rest), 0xffff)
        },
        None => None,
    }
}

/// The server port of a command line: `--pgsrv.port=PORT` or
/// `--pgsrv.port PORT`.
pub open spec fn cmdline_port(cmdline: Seq<char>) -> Option<nat> {
    match port_after(cmdline, "--pgsrv.port="@, false) {
        Some(p) => Some(p),
        None => port_after(cmdline, "--pgsrv.port"@, true),
    }
}

fn leading_digits_exec(s: &[char]) -> (r: Vec<char>)
    ensures
        r@ == leading_digits(s@),
{
    let mut i: usize = 0;
    while i < s.len() && '0' <= s[i] && s[i] <= '9'
        invariant
            i <= s.len(),
            forall|j: int| 0 <= j < i ==> is_digit(#[trigger] s@[j]),
        decreases s.len() - i,
    {
        i = i + 1;
    }
    proof {
        lemma_leading_digits(s@, i as int);
    }
    slice_chars(s, 0, i)
}

proof fn lemma_leading_digits(s: Seq<char>, k: int)
    requires
        0 <= k <= s.len(),
        forall|j: int| 0 <= j < k ==> is_digit(#[trigger] s[j]),
        k == s.len() || !is_digit(s[k]),
    ensures
        leading_digits(s) == s.subrange(0, k),
    decreases k,
{
    if k == 0 {
        assert(s.subrange(0, 0) =~= Seq::<char>::empty());
    } else {
        let t = s.drop_first();
        assert forall|j: int| 0 <= j < k - 1 implies is_digit(#[trigger] t[j]) by {
            assert(t[j] == s[j + 1]);
        }
        lemma_leading_digits(t, k - 1);
        assert(seq![s[0]] + t.subrange(0, k - 1) =~= s.subrange(0, k));
    }
}

fn port_after_exec(cmdline: &[char], pat: &str, skip_ws: bool) -> (r: Option<u16>)
    ensures
        match r {
            Some(p) => port_after(cmdline@, pat@, skip_ws) == Some(p as nat),
            None => port_after(cmdline@, pat@, skip_ws) is None,
        },
{
    let pc = chars_of(pat);
    match find_exec(cmdline, pc.as_slice()) {
        Some(pos) => {
            proof {
                crate::text::lemma_find_from(cmdline@, pc@, 0);
                assert(crate::text::find_from(cmdline@, pc@, 0) == Some(pos as int));
            }
            let sl = cmdline.len();
            assert(pos + pc@.len() <= sl);
            let after = slice_chars(cmdline, pos + pc.len(), cmdline.len());
            let rest = if skip_ws { trim_start_chars(after.as_slice()) } else { after };
            let digits = leading_digits_exec(rest.as_slice());
            match parse_unsigned_exec(digits.as_slice(), 0xffff) {
                Some(p) => Some(p as u16),
                None => None,
            }
        },
        None => None,
    }
}

/// Extract the port from a command line, looking for a `--pgsrv.port`
/// argument.
pub fn extract_port_from_cmdline(cmdline: &str) -> (r: Option<u16>)
    ensures
        match r {
            Some(p) => cmdline_port(cmdline@) == Some(p as nat),
            None => cmdline_port(cmdline@) is None,
        },
{
    let c = chars_of(cmdline);
    if let Some(p) = port_after_exec(c.as_slice(), "--pgsrv.port=", false) {
        return Some(p);
    }
    port_after_exec(c.as_slice(), "--pgsrv.port", true)
}

/// The first white-space separated token of `s`.
pub open spec fn first_token(s: Seq<char>) -> Seq<char> {
    token_prefix(trim_start(s))
}

pub open spec fn token_prefix(s: Seq<char>) -> Seq<char>
    decreases s.len(),
{
    if s.len() > 0 && !is_ws(s[0]) {
        seq![s[0]] + token_prefix(s.drop_first())
    } else {
        Seq::empty()
    }
}

proof fn lemma_token_prefix(s: Seq<char>, k: int)
    requires
        0 <= k <= s.len(),
        forall|j: int| 0 <= j < k ==> !is_ws(#[trigger] s[j]),
        k == s.len() || is_ws(s[k]),
    ensures
        token_prefix(s) == s.subrange(0, k),
    decreases k,
{
    if k == 0 {
        assert(s.subrange(0, 0) =~= Seq::<char>::empty());
    } else {
        let t = s.drop_first();
        assert forall|j: int| 0 <= j < k - 1 implies !is_ws(#[trigger] t[j]) by {
            assert(t[j] == s[j + 1]);
        }
        lemma_token_prefix(t, k - 1);
        assert(seq![s[0]] + t.subrange(0, k - 1) =~= s.subrange(0, k));
    }
}

/// The patterns after which the port of a server stands in the output of
/// `ps`, in the order they are tried.
pub open spec fn ps_patterns() -> Seq<Seq<char>> {
    seq!["--pgsrv.port="@, "--pgsrv.port "@, "pgsrv.port="@, "pgsrv.port "@]
}

/// The port given after `pat` in a process listing: the token that
/// follows it.
pub open spec fn ps_port_after(ps: Seq<char>, pat: Seq<char>) -> Option<nat> {
    match find(ps, pat) {
        Some(pos) => parse_unsigned(first_token(ps.subrange(pos + pat.len(), ps.len() as int)), 0xffff),
        None => None,
    }
}

/// The port of the first pattern, in order, that gives one.
pub open spec fn ps_port_from(ps: Seq<char>, i: int) -> Option<nat>
    decreases 4 - i,
{
    if i < 0 || i >= 4 {
        None
    } else {
        match ps_port_after(ps, ps_patterns()[i]) {
            Some(p) => Some(p),
            None => ps_port_from(ps, i + 1),
        }
    }
}

fn ps_pattern(i: usize) -> (p: &'static str)
    requires
        i < 4,
    ensures
        p@ == ps_patterns()[i as int],
{
    if i == 0 { "--pgsrv.port=" } else if i == 1 { "--pgsrv.port " } else if i == 2 { "pgsrv.port=" } else { "pgsrv.port " }
}

/// Extract the server port from the `ps` listing of a process.
pub fn extract_port_from_ps(ps_output: &str) -> (r: Option<u16>)
    ensures
        match r {
            Some(p) => ps_port_from(ps_output@, 0) == Some(p as nat),
            None => ps_port_from(ps_output@, 0) is None,
        },
{
    let ps = chars_of(ps_output);
    let mut i: usize = 0;
    while i < 4
        invariant
            i <= 4,
            ps@ == ps_output@,
            ps_port_from(ps@, 0) == ps_port_from(ps@, i as int),
        decreases 4 - i,
    {
        let pat = ps_pattern(i);
        let pc = chars_of(pat);
        if let Some(pos) = find_exec(ps.as_slice(), pc.as_slice()) {
            proof {
                crate::text::lemma_find_from(ps@, pc@, 0);
                assert(crate::text::find_from(ps@, pc@, 0) == Some(pos as int));
            }
            let sl = ps.len();
            assert(pos + pc@.len() <= sl);
            let after = slice_chars(ps.as_slice(), pos + pc.len(), ps.len());
            let t = trim_start_chars(after.as_slice());
            let mut k: usize = 0;
            while k < t.len() && !is_ws_char(t[k])
                invariant
                    k <= t@.len(),
                    forall|j: int| 0 <= j < k ==> !is_ws(#[trigger] t@[j]),
                decreases t@.len() - k,
            {
                k = k + 1;
            }
            proof {
                lemma_token_prefix(t@, k as int);
            }
            let token = slice_chars(t.as_slice(), 0, k);
            if let Some(p) = parse_unsigned_exec(token.as_slice(), 0xffff) {
                return Some(p as u16);
            }
        }
        i = i + 1;
    }
    None
}

/// Whether a server runs on `port`, among the running servers.
pub fn is_server_running(servers: &[RunningServer], port: u16) -> (b: bool)
    ensures
        b == exists|i: int| 0 <= i < servers@.len() && #[trigger] servers@[i].port == port,
{
    let mut i: usize = 0;
    while i < servers.len()
        invariant
            i <= servers@.len(),
            forall|j: int| 0 <= j < i ==> #[trigger] servers@[j].port != port,
        decreases servers@.len() - i,
    {
        if servers[i].port == port {
            return true;
        }
        i = i + 1;
    }
    false
}

/// The process id of the first running server on `port`.
pub fn get_server_pid(servers: &[RunningServer], port: u16) -> (r: Option<u32>)
    ensures
        match r {
            Some(pid) => exists|i: int| 0 <= i < servers@.len() && #[trigger] servers@[i].port == port
                && servers@[i].pid == pid && forall|j: int| 0 <= j < i ==> #[trigger] servers@[j].port != port,
            None => forall|i: int| 0 <= i < servers@.len() ==> #[trigger] servers@[i].port != port,
        },
{
    let mut i: usize = 0;
    while i < servers.len()
        invariant
            i <= servers@.len(),
            forall|j: int| 0 <= j < i ==> #[trigger] servers@[j].port != port,
        decreases servers@.len() - i,
    {
        if servers[i].port == port {
            return Some(servers[i].pid);
        }
        i = i + 1;
    }
    None
}

/// The addresses under which the server is local.
pub open spec fn is_local_address(host: Seq<char>) -> bool {
    host == "localhost"@ || host == "0.0.0.0"@ || host == "127.0.0.1"@
}

pub fn is_local_host(host: &str) -> (b: bool)
    ensures
        b == is_local_address(host@),
{
    str_eq(host, "localhost") || str_eq(host, "0.0.0.0") || str_eq(host, "127.0.0.1")
}

/// Whether the local server is to be stopped after an operation: the host
/// is local and a server runs on the port.
pub fn stop_local_server(host: &str, servers: &[RunningServer], port: u16) -> (b: bool)
    ensures
        b == (is_local_address(host@) && exists|i: int| 0 <= i < servers@.len() && #[trigger] servers@[i].port == port),
{
    is_local_host(host) && is_server_running(servers, port)
}

/// The process id of the first of `servers` that runs on `port`.
pub open spec fn first_pid_on_port(servers: Seq<RunningServer>, port: u16, i: int) -> Option<u32>
    decreases servers.len() - i,
{
    if i < 0 || i >= servers.len() {
        None
    } else if servers[i].port == port {
        Some(servers[i].pid)
    } else {
        first_pid_on_port(servers, port, i + 1)
    }
}

/// The process to stop after an operation: where the host is local, the
/// first running server on the port; no process otherwise.
pub fn server_to_stop(host: &str, servers: &[RunningServer], port: u16) -> (r: Option<u32>)
    ensures
        r == (if is_local_address(host@) { first_pid_on_port(servers@, port, 0) } else { None }),
{
    if !is_local_host(host) {
        return None;
    }
    let mut i: usize = 0;
    while i < servers.len()
        invariant
            i <= servers@.len(),
            is_local_address(host@),
            first_pid_on_port(servers@, port, 0) == first_pid_on_port(servers@, port, i as int),
        decreases servers@.len() - i,
    {
        if servers[i].port == port {
            return Some(servers[i].pid);
        }
        i = i + 1;
    }
    None
}

/// A server is stopped after an operation exactly where the host is local
/// and a server runs on the port, and then it is the first one there.
pub proof fn law_stop_only_local_servers_on_the_port(host: Seq<char>, servers: Seq<RunningServer>, port: u16)
    ensures
        (if is_local_address(host) { first_pid_on_port(servers, port, 0) } else { None }) is Some
            <==> (is_local_address(host) && exists|i: int| 0 <= i < servers.len() && #[trigger] servers[i].port == port),
{
    lemma_first_pid_on_port(servers, port, 0);
}

proof fn lemma_first_pid_on_port(servers: Seq<RunningServer>, port: u16, i: int)
    requires
        0 <= i,
    ensures
        first_pid_on_port(servers, port, i) is Some <==> exists|j: int| i <= j < servers.len() && #[trigger] servers[j].port == port,
        first_pid_on_port(servers, port, i) matches Some(pid) ==> exists|j: int|
            i <= j < servers.len() && #[trigger] servers[j].port == port && servers[j].pid == pid
            && forall|k: int| i <= k < j ==> #[trigger] servers[k].port != port,
    decreases servers.len() - i,
{
    if i < servers.len() {
        lemma_first_pid_on_port(servers, port, i + 1);
        if servers[i].port != port {
            if exists|j: int| i <= j < servers.len() && #[trigger] servers[j].port == port {
                let j = choose|j: int| i <= j < servers.len() && #[trigger] servers[j].port == port;
                assert(j != i);
                assert(i + 1 <= j);
            }
        }
    }
}

/// How to get a server before an operation.
pub enum ServerPlan {
    /// The host is remote: use it as it is.
    Remote,
    /// Start a local server, stopping the one that runs first where
    /// `stop_first`, so that the session starts clean.
    Start { stop_first: bool },
}

/// Decide how to get a server: a local host gets a fresh server, a remote
/// host is used as it is.
pub fn check_and_start_server(host: &str, servers: &[RunningServer], port: u16) -> (r: ServerPlan)
    ensures
        match r {
            ServerPlan::Remote => !is_local_address(host@),
            ServerPlan::Start { stop_first } => is_local_address(host@) && stop_first
                == exists|i: int| 0 <= i < servers@.len() && #[trigger] servers@[i].port == port,
        },
{
    if is_local_host(host) {
        ServerPlan::Start { stop_first: is_server_running(servers, port) }
    } else {
        ServerPlan::Remote
    }
}

/// The arguments a server is started with.
pub open spec fn server_args_of(
    host: Seq<char>,
    port: u16,
    registry: Option<Seq<char>>,
    mtls: Option<Seq<char>>,
    auth: Option<Seq<char>>,
    log_level: Option<Seq<char>>,
) -> Seq<Seq<char>> {
    let base = seq![
        "srv"@, "--pgsrv.address"@, host, "--pgsrv.port"@, crate::text::decimal(port as nat),
        "--pgsrv.debug.enable=true"@, "--pgsrv.loglevel=DEBUG"@,
    ];
    let a = match registry { Some(r) => base + seq!["--registry"@, r], None => base };
    let b = match mtls { Some(m) => a + seq!["--mtls-config"@, m], None => a };
    let c = match auth { Some(x) => b + seq!["--custom-auth-config"@, x], None => b };
    match log_level { Some(l) => c + seq!["--log-level"@, l], None => c }
}

fn push_pair(v: &mut Vec<String>, flag: &str, value: &String)
    ensures
        final(v)@.map_values(|s: String| s@) == old(v)@.map_values(|s: String| s@) + seq![flag@, value@],
{
    let ghost b = old(v)@;
    let f = flag.to_owned();
    let x = value.clone();
    let ghost fg = f;
    let ghost xg = x;
    v.push(f);
    v.push(x);
    assert(v@ =~= b.push(fg).push(xg));
    assert(v@.map_values(|s: String| s@) =~= b.map_values(|s: String| s@) + seq![flag@, value@]);
}

/// The arguments that start a server with `options`.
pub fn server_args(options: &StartServerOptions) -> (r: Vec<String>)
    ensures
        r@.map_values(|s: String| s@) == server_args_of(
            options.host@, options.port,
            crate::templating::opt_view(options.registry),
            crate::templating::opt_view(options.mtls_config),
            crate::templating::opt_view(options.custom_auth_config),
            crate::templating::opt_view(options.log_level),
        ),
{
    let mut v: Vec<String> = Vec::new();
    v.push("srv".to_owned());
    v.push("--pgsrv.address".to_owned());
    v.push(options.host.clone());
    v.push("--pgsrv.port".to_owned());
    let d = crate::text::decimal_exec(options.port as u64);
    v.push(string_of(d.as_slice()));
    v.push("--pgsrv.debug.enable=true".to_owned());
    v.push("--pgsrv.loglevel=DEBUG".to_owned());
    let ghost base = v@.map_values(|s: String| s@);
    assert(base =~= seq![
        "srv"@, "--pgsrv.address"@, options.host@, "--pgsrv.port"@, crate::text::decimal(options.port as nat),
        "--pgsrv.debug.enable=true"@, "--pgsrv.loglevel=DEBUG"@,
    ]);
    if let Some(r) = &options.registry {
        push_pair(&mut v, "--registry", r);
    }
    if let Some(m) = &options.mtls_config {
        push_pair(&mut v, "--mtls-config", m);
    }
    if let Some(a) = &options.custom_auth_config {
        push_pair(&mut v, "--custom-auth-config", a);
    }
    if let Some(l) = &options.log_level {
        push_pair(&mut v, "--log-level", l);
    }
    v
}

/// A process of the server as listed on Windows: its id and command line.
pub open spec fn windows_line_server(line: Seq<char>) -> Option<(nat, nat)> {
    let l = trim(line);
    if starts_with(l, "PID="@) {
        let rest = l.subrange(4, l.len() as int);
        match find(rest, " CMD="@) {
            Some(pos) => match parse_unsigned(rest.subrange(0, pos), 0xffff_ffff) {
                Some(pid) => match cmdline_port(rest.subrange(pos + 5, rest.len() as int)) {
                    Some(port) => Some((pid, port)),
                    None => None,
                },
                None => None,
            },
            None => None,
        }
    } else {
        None
    }
}

/// The servers of a Windows process listing, in order.
pub open spec fn windows_servers(ls: Seq<Seq<char>>) -> Seq<(nat, nat)>
    decreases ls.len(),
{
    if ls.len() == 0 {
        Seq::empty()
    } else {
        let rest = windows_servers(ls.drop_last());
        match windows_line_server(ls.last()) {
            Some(s) => rest.push(s),
            None => rest,
        }
    }
}

pub open spec fn servers_view(v: Seq<RunningServer>) -> Seq<(nat, nat)> {
    v.map_values(|s: RunningServer| (s.pid as nat, s.port as nat))
}

fn windows_line_exec(line: &[char]) -> (r: Option<RunningServer>)
    ensures
        match r {
            Some(s) => windows_line_server(line@) == Some((s.pid as nat, s.port as nat)),
            None => windows_line_server(line@) is None,
        },
{
    let l = trim_chars(line);
    if !starts_with_str(l.as_slice(), "PID=") {
        return None;
    }
    proof { reveal_strlit("PID="); }
    let rest = slice_chars(l.as_slice(), 4, l.len());
    let cmd = chars_of(" CMD=");
    proof { reveal_strlit(" CMD="); }
    match find_exec(rest.as_slice(), cmd.as_slice()) {
        Some(pos) => {
            proof {
                crate::text::lemma_find_from(rest@, cmd@, 0);
                assert(crate::text::find_from(rest@, cmd@, 0) == Some(pos as int));
            }
            let rl = rest.len();
            assert(pos + 5 <= rl);
            let pid_s = slice_chars(rest.as_slice(), 0, pos);
            let cl = slice_chars(rest.as_slice(), pos + 5, rest.len());
            match parse_unsigned_exec(pid_s.as_slice(), 0xffff_ffff) {
                Some(pid) => {
                    let cls = string_of(cl.as_slice());
                    match extract_port_from_cmdline(cls.as_str()) {
                        Some(port) => Some(RunningServer { pid: pid as u32, port }),
                        None => None,
                    }
                },
                None => None,
            }
        },
        None => None,
    }
}

/// The servers found in a Windows process listing (lines
/// `PID=<pid> CMD=<command line>`).
pub fn parse_windows_servers(output: &str) -> (r: Vec<RunningServer>)
    ensures
        servers_view(r@) == windows_servers(lines(output@)),
{
    let c = chars_of(output);
    let ls = lines_exec(c.as_slice());
    let ghost lv = views(ls@);
    let mut r: Vec<RunningServer> = Vec::new();
    let mut i: usize = 0;
    assert(lv.subrange(0, 0) =~= Seq::<Seq<char>>::empty());
    while i < ls.len()
        invariant
            i <= ls@.len(),
            lv == views(ls@),
            servers_view(r@) =~= windows_servers(lv.subrange(0, i as int)),
        decreases ls@.len() - i,
    {
        assert(lv.subrange(0, i + 1).drop_last() =~= lv.subrange(0, i as int));
        assert(lv.subrange(0, i + 1).last() == ls@[i as int]@);
        if let Some(s) = windows_line_exec(ls[i].as_slice()) {
            let ghost b = r@;
            r.push(s);
            assert(r@ =~= b.push(s));
            assert(servers_view(r@) =~= servers_view(b).push((s.pid as nat, s.port as nat)));
        }
        i = i + 1;
    }
    assert(lv.subrange(0, ls@.len() as int) =~= lv);
    r
}

/// The process ids in the output of `pgrep`, one per line, as text and as
/// a number; lines that are not a number are skipped.
pub open spec fn pgrep_pids(pieces: Seq<Seq<char>>) -> Seq<(Seq<char>, nat)>
    decreases pieces.len(),
{
    if pieces.len() == 0 {
        Seq::empty()
    } else {
        let rest = pgrep_pids(pieces.drop_last());
        match parse_unsigned(trim(pieces.last()), 0xffff_ffff) {
            Some(pid) => rest.push((pieces.last(), pid)),
            None => rest,
        }
    }
}

/// The process ids that `pgrep` printed.
pub fn parse_pgrep_output(output: &str) -> (r: Vec<(String, u32)>)
    ensures
        r@.map_values(|p: (String, u32)| (p.0@, p.1 as nat)) == pgrep_pids(crate::text::split_char(trim(output@), '\n')),
{
    let c = chars_of(output);
    let t = trim_chars(c.as_slice());
    let pieces = crate::text::split_char_exec(t.as_slice(), '\n');
    let ghost pv = views(pieces@);
    let mut r: Vec<(String, u32)> = Vec::new();
    let mut i: usize = 0;
    assert(pv.subrange(0, 0) =~= Seq::<Seq<char>>::empty());
    while i < pieces.len()
        invariant
            i <= pieces@.len(),
            pv == views(pieces@),
            r@.map_values(|p: (String, u32)| (p.0@, p.1 as nat)) =~= pgrep_pids(pv.subrange(0, i as int)),
        decreases pieces@.len() - i,
    {
        assert(pv.subrange(0, i + 1).drop_last() =~= pv.subrange(0, i as int));
        assert(pv.subrange(0, i + 1).last() == pieces@[i as int]@);
        let pt = trim_chars(pieces[i].as_slice());
        if let Some(pid) = parse_unsigned_exec(pt.as_slice(), 0xffff_ffff) {
            let ghost b = r@;
            let e = (string_of(pieces[i].as_slice()), pid as u32);
            let ghost eg = e;
            r.push(e);
            assert(r@ =~= b.push(eg));
            assert(r@.map_values(|p: (String, u32)| (p.0@, p.1 as nat)) =~=
                b.map_values(|p: (String, u32)| (p.0@, p.1 as nat)).push((eg.0@, eg.1 as nat)));
        }
        i = i + 1;
    }
    assert(pv.subrange(0, pieces@.len() as int) =~= pv);
    r
}

} // verus!
