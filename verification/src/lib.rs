//! Session lifecycle and hardware-access arbitration for a debug probe
//! attached to a microcontroller.
//!
//! A capacity-bounded registry creates, finds and tears down debug
//! sessions; each session exclusively owns one probe/target pair and the
//! state recorded about it — breakpoint table, RTT attachment, activity
//! timestamps — and serializes every hardware-facing operation through
//! `&mut` access. The registry, the session bookkeeping and all decision
//! logic are verified; the probe hardware itself sits behind the trusted
//! wrappers of `hw`.

use vstd::prelude::*;

pub mod hw;
pub mod registers;
pub mod breakpoints;
pub mod rtt;
pub mod session;
pub mod registry;
pub mod types;
pub mod laws;

verus! {

/// The digit character of one decimal digit value.
pub open spec fn digit_char(d: nat) -> char {
    if d == 0 {
        '0'
    } else if d == 1 {
        '1'
    } else if d == 2 {
        '2'
    } else if d == 3 {
        '3'
    } else if d == 4 {
        '4'
    } else if d == 5 {
        '5'
    } else if d == 6 {
        '6'
    } else if d == 7 {
        '7'
    } else if d == 8 {
        '8'
    } else {
        '9'
    }
}

/// The decimal rendering of a number, most significant digit first.
pub open spec fn dec_seq(n: nat) -> Seq<char>
    decreases n,
{
    if n < 10 {
        seq![digit_char(n)]
    } else {
        dec_seq(n / 10).push(digit_char(n % 10))
    }
}

fn digit_str(d: u64) -> (r: String)
    requires
        d < 10,
    ensures
        r@ == seq![digit_char(d as nat)],
{
    proof {
        reveal_strlit("0");
        reveal_strlit("1");
        reveal_strlit("2");
        reveal_strlit("3");
        reveal_strlit("4");
        reveal_strlit("5");
        reveal_strlit("6");
        reveal_strlit("7");
        reveal_strlit("8");
        reveal_strlit("9");
    }
    let r = match d {
        0 => String::from_str("0"),
        1 => String::from_str("1"),
        2 => String::from_str("2"),
        3 => String::from_str("3"),
        4 => String::from_str("4"),
        5 => String::from_str("5"),
        6 => String::from_str("6"),
        7 => String::from_str("7"),
        8 => String::from_str("8"),
        _ => String::from_str("9"),
    };
    proof {
        assert(r@ =~= seq![digit_char(d as nat)]);
    }
    r
}

/// Renders a number in decimal.
pub fn dec_string(n: u64) -> (r: String)
    ensures
        r@ == dec_seq(n as nat),
    decreases n,
{
    if n < 10 {
        digit_str(n)
    } else {
        proof {
            assert(n / 10 < n) by (nonlinear_arith)
                requires n >= 10;
        }
        let rest = dec_string(n / 10);
        let last = digit_str(n % 10);
        let out = rest.concat(last.as_str());
        proof {
            assert(out@ =~= dec_seq(n as nat));
        }
        out
    }
}

/// The kinds of failure a debug-session operation can report.
#[derive(Debug, Clone, PartialEq, Eq)]
pub enum DebugError {
    ConnectionFailed(String),
    InvalidConfig(String),
    InvalidSession(String),
    InvalidAddress(u64),
    SessionLimitExceeded(usize),
    ProbeNotFound(String),
    InternalError(String),
}

impl DebugError {
    /// A human-readable rendering of the error: a fixed text naming the
    /// kind, then the detail the error carries.
    pub fn describe(&self) -> (r: String)
        ensures
            match *self {
                DebugError::ConnectionFailed(m) => r@ == "Connection failed: "@ + m@,
                DebugError::InvalidConfig(m) => r@ == "Invalid configuration: "@ + m@,
                DebugError::InvalidSession(m) => r@ == "Invalid session: "@ + m@,
                DebugError::InvalidAddress(a) => r@ == "Invalid address: "@ + dec_seq(a as nat),
                DebugError::SessionLimitExceeded(x) => r@ == "Session limit exceeded: "@
                    + dec_seq(x as nat),
                DebugError::ProbeNotFound(m) => r@ == "Probe not found: "@ + m@,
                DebugError::InternalError(m) => r@ == "Internal error: "@ + m@,
            },
    {
        match self {
            DebugError::ConnectionFailed(m) => {
                let mut r = "Connection failed: ".to_owned();
                r.append(m.as_str());
                r
            }
            DebugError::InvalidConfig(m) => {
                let mut r = "Invalid configuration: ".to_owned();
                r.append(m.as_str());
                r
            }
            DebugError::InvalidSession(m) => {
                let mut r = "Invalid session: ".to_owned();
                r.append(m.as_str());
                r
            }
            DebugError::InvalidAddress(a) => {
                let mut r = "Invalid address: ".to_owned();
                let rendered = dec_string(*a);
                r.append(rendered.as_str());
                r
            }
            DebugError::SessionLimitExceeded(x) => {
                let mut r = "Session limit exceeded: ".to_owned();
                let rendered = dec_string(*x as u64);
                r.append(rendered.as_str());
                r
            }
            DebugError::ProbeNotFound(m) => {
                let mut r = "Probe not found: ".to_owned();
                r.append(m.as_str());
                r
            }
            DebugError::InternalError(m) => {
                let mut r = "Internal error: ".to_owned();
                r.append(m.as_str());
                r
            }
        }
    }

    /// An internal (hardware-level) failure, with operation context.
    pub fn internal(context: &str, detail: String) -> (r: DebugError)
        ensures
            r matches DebugError::InternalError(m) && m@ == context@ + detail@,
    {
        let mut m = context.to_owned();
        m.append(detail.as_str());
        DebugError::InternalError(m)
    }

    /// A connection failure, with operation context.
    pub fn connection(context: &str, detail: String) -> (r: DebugError)
        ensures
            r matches DebugError::ConnectionFailed(m) && m@ == context@ + detail@,
    {
        let mut m = context.to_owned();
        m.append(detail.as_str());
        DebugError::ConnectionFailed(m)
    }

    /// A malformed-input failure, with operation context.
    pub fn config(context: &str, detail: String) -> (r: DebugError)
        ensures
            r matches DebugError::InvalidConfig(m) && m@ == context@ + detail@,
    {
        let mut m = context.to_owned();
        m.append(detail.as_str());
        DebugError::InvalidConfig(m)
    }

    /// An unknown-probe failure, with operation context.
    pub fn probe_not_found(context: &str, detail: String) -> (r: DebugError)
        ensures
            r matches DebugError::ProbeNotFound(m) && m@ == context@ + detail@,
    {
        let mut m = context.to_owned();
        m.append(detail.as_str());
        DebugError::ProbeNotFound(m)
    }
}

} // verus!
