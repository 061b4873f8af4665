//! Decisions of the development server: the bind mode and the URLs it is
//! reachable at, the commands from the terminal interface, and terminal
//! hyperlinks.

use vstd::prelude::*;
use owo_colors::OwoColorize;
use crate::logging::{opt_text, after_set_filter, FilterHandle, HandleView, TuiLogLevel, next_level};
use crate::text::{append_chars, append_str, chars_to_string, decimal_chars, decimal_digits, eq_str, str_chars};
use crate::tui::{BindMode, LogEvent, LogLevel, EventKind, ServerCommand};

verus! {

/// The mode the server starts in: on the LAN when asked for, or when the
/// address is `0.0.0.0`; else local only.
pub fn initial_bind_mode(start_public: bool, address: &str) -> (r: BindMode)
    ensures
        r == (if start_public || address@ == "0.0.0.0"@ {
            BindMode::Lan
        } else {
            BindMode::Local
        }),
{
    let a = str_chars(address);
    if start_public || eq_str(&a, "0.0.0.0") {
        BindMode::Lan
    } else {
        BindMode::Local
    }
}

/// The mode a command switches the server to.
pub fn mode_for_command(cmd: ServerCommand) -> (r: BindMode)
    ensures
        r == match cmd {
            ServerCommand::GoPublic => BindMode::Lan,
            ServerCommand::GoLocal => BindMode::Local,
        },
{
    match cmd {
        ServerCommand::GoPublic => BindMode::Lan,
        ServerCommand::GoLocal => BindMode::Local,
    }
}

/// How a mode is described in the activity log.
pub fn bind_mode_label(mode: BindMode) -> (r: &'static str)
    ensures
        r@ == match mode {
            BindMode::Local => "localhost only"@,
            BindMode::Lan => "LAN"@,
        },
{
    match mode {
        BindMode::Local => "localhost only",
        BindMode::Lan => "LAN",
    }
}

/// `http://a.b.c.d:port` for an IPv4 address given by its octets.
pub open spec fn url_text(ip: [u8; 4], port: u16) -> Seq<char> {
    "http://"@ + decimal_digits(ip@[0] as nat) + seq!['.'] + decimal_digits(ip@[1] as nat) + seq![
        '.',
    ] + decimal_digits(ip@[2] as nat) + seq!['.'] + decimal_digits(ip@[3] as nat) + seq![':']
        + decimal_digits(port as nat)
}

/// The URL of the server on one address.
pub fn server_url(ip: [u8; 4], port: u16) -> (r: String)
    ensures
        r@ == url_text(ip, port),
{
    let mut t = str_chars("http://");
    let d = decimal_chars(ip[0] as u64);
    append_chars(&mut t, &d);
    t.push('.');
    let d = decimal_chars(ip[1] as u64);
    append_chars(&mut t, &d);
    t.push('.');
    let d = decimal_chars(ip[2] as u64);
    append_chars(&mut t, &d);
    t.push('.');
    let d = decimal_chars(ip[3] as u64);
    append_chars(&mut t, &d);
    t.push(':');
    let d = decimal_chars(port as u64);
    append_chars(&mut t, &d);
    assert(t@ =~= url_text(ip, port));
    chars_to_string(&t)
}

/// The URLs of the server on each of its addresses.
pub fn server_urls(ips: &Vec<[u8; 4]>, port: u16) -> (r: Vec<String>)
    ensures
        r@.len() == ips@.len(),
        forall|i: int| 0 <= i < ips@.len() ==> #[trigger] r@[i]@ == url_text(ips@[i], port),
{
    let mut out: Vec<String> = Vec::new();
    let mut i: usize = 0;
    while i < ips.len()
        invariant
            i <= ips.len(),
            out@.len() == i,
            forall|k: int| 0 <= k < i ==> #[trigger] out@[k]@ == url_text(ips@[k], port),
        decreases ips.len() - i,
    {
        out.push(server_url(ips[i], port));
        i += 1;
    }
    out
}

/// `http://<address>:<port>` for an address given as text.
pub open spec fn address_url_text(address: Seq<char>, port: u16) -> Seq<char> {
    "http://"@ + address + seq![':'] + decimal_digits(port as nat)
}

/// The URLs printed when the server starts: one per IPv4 interface when it
/// listens on `0.0.0.0` (given the interfaces' addresses), else the one
/// address it was given.
pub fn printed_server_urls(address: &str, port: u16, interface_ips: &Vec<[u8; 4]>) -> (r: Vec<String>)
    ensures
        address@ == "0.0.0.0"@ ==> r@.len() == interface_ips@.len() && forall|i: int|
            0 <= i < interface_ips@.len() ==> #[trigger] r@[i]@ == url_text(interface_ips@[i], port),
        address@ != "0.0.0.0"@ ==> r@.len() == 1 && r@[0]@ == address_url_text(address@, port),
{
    let a = str_chars(address);
    if eq_str(&a, "0.0.0.0") {
        server_urls(interface_ips, port)
    } else {
        let mut t = str_chars("http://");
        append_chars(&mut t, &a);
        t.push(':');
        let d = decimal_chars(port as u64);
        append_chars(&mut t, &d);
        let mut out: Vec<String> = Vec::new();
        out.push(chars_to_string(&t));
        out
    }
}

/// The loopback address.
pub open spec fn localhost() -> [u8; 4] {
    [127u8, 0u8, 0u8, 1u8]
}

/// The addresses bound in a mode: the loopback address, followed in LAN
/// mode by the machine's LAN addresses.
pub open spec fn mode_ips(mode: BindMode, lan_ips: Seq<[u8; 4]>) -> Seq<[u8; 4]> {
    match mode {
        BindMode::Local => seq![localhost()],
        BindMode::Lan => seq![localhost()] + lan_ips,
    }
}

/// The addresses to bind in `mode`, given the machine's LAN addresses.
pub fn bind_ips(mode: BindMode, lan_ips: &Vec<[u8; 4]>) -> (r: Vec<[u8; 4]>)
    ensures
        r@ == mode_ips(mode, lan_ips@),
{
    let lo: [u8; 4] = [127, 0, 0, 1];
    let mut out: Vec<[u8; 4]> = Vec::new();
    out.push(lo);
    assert(lo == localhost());
    match mode {
        BindMode::Local => {},
        BindMode::Lan => {
            let mut i: usize = 0;
            while i < lan_ips.len()
                invariant
                    i <= lan_ips.len(),
                    out@ == seq![localhost()] + lan_ips@.take(i as int),
                decreases lan_ips.len() - i,
            {
                out.push(lan_ips[i]);
                proof {
                    assert(lan_ips@.take(i + 1) =~= lan_ips@.take(i as int).push(lan_ips@[i as int]));
                }
                i += 1;
            }
            proof {
                assert(lan_ips@.take(lan_ips@.len() as int) =~= lan_ips@);
            }
        },
    }
    proof {
        assert(out@ =~= mode_ips(mode, lan_ips@));
    }
    out
}

/// The addresses a server without mode switching binds: all of them
/// (loopback and LAN) when asked to be public or given `0.0.0.0`; else the
/// address given where it is an IPv4 address (`parsed`), and the loopback
/// address where it is not.
pub fn fixed_bind_ips(
    public_access: bool,
    address: &str,
    parsed: Option<[u8; 4]>,
    lan_ips: &Vec<[u8; 4]>,
) -> (r: Vec<[u8; 4]>)
    ensures
        r@ == (if public_access || address@ == "0.0.0.0"@ {
            mode_ips(BindMode::Lan, lan_ips@)
        } else {
            match parsed {
                Some(ip) => seq![ip],
                None => seq![localhost()],
            }
        }),
{
    let a = str_chars(address);
    if public_access || eq_str(&a, "0.0.0.0") {
        bind_ips(BindMode::Lan, lan_ips)
    } else {
        let ip: [u8; 4] = match parsed {
            Some(ip) => ip,
            None => [127, 0, 0, 1],
        };
        let mut out: Vec<[u8; 4]> = Vec::new();
        out.push(ip);
        proof {
            assert(out@ =~= seq![ip]);
        }
        out
    }
}

/// The activity message when the server binds.
pub open spec fn binding_text(count: nat, port: u16, mode: BindMode) -> Seq<char> {
    "Binding to "@ + decimal_digits(count) + " IPs on port "@ + decimal_digits(port as nat) + " ("@
        + match mode {
        BindMode::Local => "localhost only"@,
        BindMode::Lan => "LAN"@,
    } + seq![')']
}

/// The activity event announcing a bind to `count` addresses.
pub fn binding_event(count: usize, port: u16, mode: BindMode) -> (r: LogEvent)
    ensures
        r.level == LogLevel::Info,
        r.kind == EventKind::Server,
        r.message@ == binding_text(count as nat, port, mode),
{
    let mut t = str_chars("Binding to ");
    let d = decimal_chars(count as u64);
    append_chars(&mut t, &d);
    append_str(&mut t, " IPs on port ");
    let d = decimal_chars(port as u64);
    append_chars(&mut t, &d);
    append_str(&mut t, " (");
    append_str(&mut t, bind_mode_label(mode));
    t.push(')');
    assert(t@ =~= binding_text(count as nat, port, mode));
    LogEvent::server(chars_to_string(&t))
}

/// A command of the terminal interface about logging.
pub enum FilterCommand {
    CycleLogLevel,
    TogglePicanteDebug,
    SetLogFilter { filter: String },
}

/// The level name shown for `t`.
pub open spec fn level_label(t: TuiLogLevel) -> Seq<char> {
    match t {
        TuiLogLevel::Off => "OFF"@,
        TuiLogLevel::Error => "ERROR"@,
        TuiLogLevel::Warn => "WARN"@,
        TuiLogLevel::Info => "INFO"@,
        TuiLogLevel::Debug => "DEBUG"@,
        TuiLogLevel::Trace => "TRACE"@,
    }
}

/// Applies a logging command of the interface to the filter settings and
/// gives the event that reports it.
pub fn apply_filter_command(handle: &mut FilterHandle, cmd: FilterCommand) -> (r: LogEvent)
    ensures
        r.kind == EventKind::Generic,
        match cmd {
            FilterCommand::CycleLogLevel => {
                &&& final(handle)@ == (HandleView {
                    picante_debug: old(handle)@.picante_debug,
                    log_level: next_level(old(handle)@.log_level),
                    filter: None,
                })
                &&& r.level == LogLevel::Info
                &&& r.message@ == "Log level: "@ + level_label(next_level(old(handle)@.log_level))
            },
            FilterCommand::TogglePicanteDebug => {
                &&& final(handle)@ == (HandleView {
                    picante_debug: !old(handle)@.picante_debug,
                    ..old(handle)@
                })
                &&& r.level == LogLevel::Info
                &&& r.message@ == "Picante debug: "@ + if !old(handle)@.picante_debug {
                    "ON"@
                } else {
                    "OFF"@
                }
            },
            FilterCommand::SetLogFilter { filter } => {
                let (h, shown) = after_set_filter(old(handle)@, filter@);
                &&& final(handle)@ == h
                &&& match shown {
                    Some(e) => if e.len() == 0 {
                        r.level == LogLevel::Info && r.message@ == "Log filter cleared"@
                    } else {
                        r.level == LogLevel::Info && r.message@ == "Log filter: "@ + e
                    },
                    None => r.level == LogLevel::Warn && r.message@ == "Invalid log filter: "@
                        + filter@,
                }
            },
        },
{
    match cmd {
        FilterCommand::CycleLogLevel => {
            let level = handle.cycle_log_level();
            let mut t = str_chars("Log level: ");
            append_str(&mut t, level.as_str());
            LogEvent::info(chars_to_string(&t))
        },
        FilterCommand::TogglePicanteDebug => {
            let enabled = handle.toggle_picante_debug();
            let mut t = str_chars("Picante debug: ");
            append_str(
                &mut t,
                if enabled {
                    "ON"
                } else {
                    "OFF"
                },
            );
            LogEvent::info(chars_to_string(&t))
        },
        FilterCommand::SetLogFilter { filter } => {
            match handle.set_filter(filter.as_str()) {
                Some(expr) => {
                    let ec = str_chars(expr.as_str());
                    if ec.len() == 0 {
                        LogEvent::info("Log filter cleared".to_owned())
                    } else {
                        let mut t = str_chars("Log filter: ");
                        append_chars(&mut t, &ec);
                        LogEvent::info(chars_to_string(&t))
                    }
                },
                None => {
                    let mut t = str_chars("Invalid log filter: ");
                    append_str(&mut t, filter.as_str());
                    LogEvent::warn(chars_to_string(&t))
                },
            }
        },
    }
}

/// The text rendered blue and underlined by `owo_colors`:
/// `"\x1b[4m"`, the blue foreground `"\x1b[34m"`, the text, the default
/// foreground `"\x1b[39m"`, and the reset `"\x1b[0m"`, as the `Display`
/// impls of `UnderlineDisplay` and `FgColorDisplay<Blue, _>` write it.
#[verifier::external_body]
fn blue_underline(text: &str) -> (r: String)
    ensures
        r@ == "\x1b[4m\x1b[34m"@ + text@ + "\x1b[39m\x1b[0m"@,
{
    format!("{}", text.blue().underline())
}

/// An OSC 8 terminal hyperlink to `url` showing `text`, blue and
/// underlined.
pub open spec fn terminal_link_text(url: Seq<char>, text: Seq<char>) -> Seq<char> {
    "\x1b]8;;"@ + url + "\x1b\\"@ + "\x1b[4m\x1b[34m"@ + text + "\x1b[39m\x1b[0m"@ + "\x1b]8;;\x1b\\"@
}

/// Creates an OSC 8 terminal hyperlink.
pub fn terminal_link(url: &str, text: &str) -> (r: String)
    ensures
        r@ == terminal_link_text(url@, text@),
{
    let mut t = str_chars("\x1b]8;;");
    append_str(&mut t, url);
    append_str(&mut t, "\x1b\\");
    let styled = blue_underline(text);
    append_str(&mut t, styled.as_str());
    append_str(&mut t, "\x1b]8;;\x1b\\");
    chars_to_string(&t)
}

} // verus!
