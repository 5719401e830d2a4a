//! Runtime settings of the servers, decided from the environment values
//! that the binaries read.
use vstd::prelude::*;
use vstd::string::*;
use crate::text::{decimal, law_parse_reads_decimal, parse_u16, parse_unsigned, parse_usize, push_decimal, same_text, within};

verus! {

/// The port used when `PORT` does not give one.
pub const DEFAULT_PORT: u16 = 3000;

/// The number of database connections when no setting gives one.
pub const DEFAULT_CLIENTS: usize = 8;

/// The port a server listens on: `PORT` read as a `u16`, or
/// `DEFAULT_PORT` when it is missing or not a port number.
pub open spec fn port_for(port: Option<Seq<char>>) -> u16 {
    match port {
        Some(s) => match within(parse_unsigned(s), 0, 65535) {
            Some(p) => p as u16,
            None => DEFAULT_PORT,
        },
        None => DEFAULT_PORT,
    }
}

/// The port to listen on for the value of `PORT`.
pub fn listen_port(port: Option<&str>) -> (r: u16)
    ensures
        r == port_for(
            match port {
                Some(s) => Some(s@),
                None => None,
            },
        ),
{
    match port {
        Some(s) => match parse_u16(s) {
            Some(p) => p,
            None => DEFAULT_PORT,
        },
        None => DEFAULT_PORT,
    }
}

/// The address to bind: `HOST` (or `127.0.0.1`), a colon and the port for
/// `PORT`.
pub fn bind_address(host: Option<&str>, port: Option<&str>) -> (r: String)
    ensures
        r@ == match host {
            Some(h) => h@,
            None => "127.0.0.1"@,
        } + ":"@ + decimal(
            port_for(
                match port {
                    Some(s) => Some(s@),
                    None => None,
                },
            ) as nat,
        ),
{
    let p = listen_port(port);
    let mut out = String::new();
    match host {
        Some(h) => out.append(h),
        None => out.append("127.0.0.1"),
    }
    out.append(":");
    push_decimal(&mut out, p as u64);
    out
}

/// Whether pages use the built stylesheet rather than the CDN one: always
/// in a release build, and otherwise when `CSS` is `built`.
pub fn css_built(release: bool, css: Option<&str>) -> (r: bool)
    ensures
        r == (release || match css {
            Some(c) => c@ == "built"@,
            None => false,
        }),
{
    if release {
        return true;
    }
    match css {
        Some(c) => same_text(c, "built"),
        None => false,
    }
}

/// The number of pipelined database clients: `PIPE_CLIENTS` when it is
/// set, else `POOL_MAX`, read as a `usize` (`DEFAULT_CLIENTS` when missing
/// or not a number), and at least 1.
pub open spec fn clients_for(pipe_clients: Option<Seq<char>>, pool_max: Option<Seq<char>>) -> int {
    let setting = match pipe_clients {
        Some(s) => Some(s),
        None => pool_max,
    };
    let n = match setting {
        Some(s) => match within(parse_unsigned(s), 0, usize::MAX as int) {
            Some(v) => v,
            None => DEFAULT_CLIENTS as int,
        },
        None => DEFAULT_CLIENTS as int,
    };
    if n < 1 {
        1
    } else {
        n
    }
}

/// The number of pipelined database clients for the values of
/// `PIPE_CLIENTS` and `POOL_MAX`.
pub fn pipe_client_count(pipe_clients: Option<&str>, pool_max: Option<&str>) -> (r: usize)
    ensures
        r == clients_for(
            match pipe_clients {
                Some(s) => Some(s@),
                None => None,
            },
            match pool_max {
                Some(s) => Some(s@),
                None => None,
            },
        ),
{
    let setting = match pipe_clients {
        Some(s) => Some(s),
        None => pool_max,
    };
    let n = match setting {
        Some(s) => match parse_usize(s) {
            Some(v) => v,
            None => DEFAULT_CLIENTS,
        },
        None => DEFAULT_CLIENTS,
    };
    if n < 1 {
        1
    } else {
        n
    }
}

/// The client that serves request number `ticket` among `clients`, taken
/// in turn.
pub fn client_for_ticket(ticket: usize, clients: usize) -> (r: usize)
    requires
        clients > 0,
    ensures
        r == ticket % clients,
        r < clients,
{
    ticket % clients
}

/// The role and database for the local Postgres socket: `USER` (or
/// `postgres`) and `PGDATABASE` (or `lastshot`).
pub fn database_login(user: Option<&str>, database: Option<&str>) -> (r: (String, String))
    ensures
        r.0@ == match user {
            Some(u) => u@,
            None => "postgres"@,
        },
        r.1@ == match database {
            Some(d) => d@,
            None => "lastshot"@,
        },
{
    let u = match user {
        Some(u) => String::from_str(u),
        None => String::from_str("postgres"),
    };
    let d = match database {
        Some(d) => String::from_str(d),
        None => String::from_str("lastshot"),
    };
    (u, d)
}

/// Any `PORT` that reads as a `u16` the way Rust reads one is the port;
/// only a missing value or one that is not a `u16` gives `DEFAULT_PORT`. In
/// particular the decimal notation of every port number gives that port.
pub proof fn law_port_is_the_number_given(s: Seq<char>, p: int, q: u16)
    ensures
        parse_unsigned(s) == Some(p) && 0 <= p <= 65535 ==> port_for(Some(s)) == p,
        parse_unsigned(s) is None ==> port_for(Some(s)) == DEFAULT_PORT,
        parse_unsigned(s) == Some(p) && p > 65535 ==> port_for(Some(s)) == DEFAULT_PORT,
        port_for(None) == DEFAULT_PORT,
        port_for(Some(decimal(q as nat))) == q,
{
    law_parse_reads_decimal(q as nat);
}

/// The setting that decides the client count: `PIPE_CLIENTS` when it is
/// set, else `POOL_MAX`.
pub open spec fn client_setting(pipe_clients: Option<Seq<char>>, pool_max: Option<Seq<char>>) -> Option<
    Seq<char>,
> {
    if pipe_clients is Some {
        pipe_clients
    } else {
        pool_max
    }
}

/// The client count is the number the deciding setting gives when that
/// reads as a positive `usize`; 0 gives 1, and a missing or unreadable
/// setting gives `DEFAULT_CLIENTS`.
pub proof fn law_clients_is_the_number_given(
    pipe_clients: Option<Seq<char>>,
    pool_max: Option<Seq<char>>,
    n: int,
)
    ensures
        (client_setting(pipe_clients, pool_max) is Some && parse_unsigned(
            client_setting(pipe_clients, pool_max)->0,
        ) == Some(n) && 1 <= n <= usize::MAX) ==> clients_for(pipe_clients, pool_max) == n,
        (client_setting(pipe_clients, pool_max) is Some && parse_unsigned(
            client_setting(pipe_clients, pool_max)->0,
        ) == Some(0int)) ==> clients_for(pipe_clients, pool_max) == 1,
        (client_setting(pipe_clients, pool_max) is Some && parse_unsigned(
            client_setting(pipe_clients, pool_max)->0,
        ) is None) ==> clients_for(pipe_clients, pool_max) == DEFAULT_CLIENTS,
        client_setting(pipe_clients, pool_max) is None ==> clients_for(pipe_clients, pool_max)
            == DEFAULT_CLIENTS,
        pipe_clients is Some ==> client_setting(pipe_clients, pool_max) == pipe_clients,
        pipe_clients is None ==> client_setting(pipe_clients, pool_max) == pool_max,
        clients_for(pipe_clients, pool_max) >= 1,
{
}

} // verus!
