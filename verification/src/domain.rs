//! The typed entities that interpreted tool output is mapped into, together
//! with the laws that hold of their textual forms.
//!
//! Every value here is a snapshot of the external tool's ephemeral state at
//! call time: nothing is cached or shared across calls.

use vstd::prelude::*;

use crate::text::ci_seq_eq;

verus! {

/// The failure taxonomy of the client, flat and typed.
///
/// `FailedCommand` and `BadOutput` carry the issued command line for
/// diagnostics; `BadDateFormat` and `BadVersion` carry the captured substring
/// whose semantic conversion failed.
#[derive(Debug, PartialEq, Eq)]
pub enum CliError {
    IoError(String),
    FailedCommand(Vec<String>),
    BadEncoding,
    BadOutput(Vec<String>),
    BadDateFormat(String),
    BadVersion(String),
}

/// How a connect invocation targets a destination; exactly one variant is
/// active per call and maps to a fixed ordered argument sequence.
#[derive(Debug, PartialEq, Eq)]
pub enum ConnectOption {
    Country(String),
    Server(String),
    CountryCode(String),
    City(String),
    Group(String),
    CountryCity(String, String),
}

/// A calendar date as the account grammar captures it.
#[derive(Debug, Clone, Copy, PartialEq, Eq, Structural)]
pub struct Date {
    pub year: i32,
    pub month: u8,
    pub day: u8,
}

/// The account operation's success shape.
#[derive(Debug, PartialEq, Eq)]
pub struct Account {
    pub email: String,
    pub active: bool,
    pub expires: Date,
}

/// The connect operation's success shape.
#[derive(Debug, PartialEq, Eq)]
pub struct Connected {
    pub country: String,
    pub server: u32,
    pub hostname: String,
}

/// A server address: a dotted quad, or the textual form of a colon-separated
/// address as the grammar captured it.
#[derive(Debug, PartialEq, Eq)]
pub enum IpAddress {
    V4(u8, u8, u8, u8),
    V6(String),
}

#[derive(Debug, Clone, Copy, PartialEq, Eq, Structural)]
pub enum Technology {
    OpenVpn,
    NordLynx,
}

#[derive(Debug, Clone, Copy, PartialEq, Eq, Structural)]
pub enum Protocol {
    Tcp,
    Udp,
}

/// Received and sent byte quantities, in whole bytes.
#[derive(Debug, Clone, Copy, PartialEq, Eq, Structural)]
pub struct Transfer {
    pub received: u128,
    pub sent: u128,
}

/// The status operation's success shape. All fields are co-required: partial
/// extraction never yields a `Status`. The uptime is a whole number of
/// seconds.
#[derive(Debug, PartialEq, Eq)]
pub struct Status {
    pub hostname: String,
    pub country: String,
    pub city: String,
    pub ip: IpAddress,
    pub technology: Technology,
    pub protocol: Protocol,
    pub transfer: Transfer,
    pub uptime: u64,
}

/// A semantic version: a dotted triple of numbers.
#[derive(Debug, Clone, Copy, PartialEq, Eq, Structural)]
pub struct Version {
    pub major: u64,
    pub minor: u64,
    pub patch: u64,
}

/// The owner of the per-operation entry points.
pub struct NordVPN;

/// Canonical upper-case textual form of a `Technology`.
pub open spec fn technology_text(t: Technology) -> Seq<char> {
    match t {
        Technology::OpenVpn => "OPENVPN"@,
        Technology::NordLynx => "NORDLYNX"@,
    }
}

/// Case-insensitive textual parse of a `Technology`.
pub open spec fn technology_of(s: Seq<char>) -> Option<Technology> {
    if ci_seq_eq(s, "OPENVPN"@) {
        Some(Technology::OpenVpn)
    } else if ci_seq_eq(s, "NORDLYNX"@) {
        Some(Technology::NordLynx)
    } else {
        None
    }
}

/// Canonical upper-case textual form of a `Protocol`.
pub open spec fn protocol_text(p: Protocol) -> Seq<char> {
    match p {
        Protocol::Tcp => "TCP"@,
        Protocol::Udp => "UDP"@,
    }
}

/// Case-insensitive textual parse of a `Protocol`.
pub open spec fn protocol_of(s: Seq<char>) -> Option<Protocol> {
    if ci_seq_eq(s, "TCP"@) {
        Some(Protocol::Tcp)
    } else if ci_seq_eq(s, "UDP"@) {
        Some(Protocol::Udp)
    } else {
        None
    }
}

impl Technology {
    /// Parse a `Technology` from text, ignoring ASCII case.
    pub fn from_text(s: &str) -> (r: Option<Technology>)
        ensures
            r == technology_of(s@),
    {
        if crate::text::ci_eq(s, "OPENVPN") {
            Some(Technology::OpenVpn)
        } else if crate::text::ci_eq(s, "NORDLYNX") {
            Some(Technology::NordLynx)
        } else {
            None
        }
    }

    /// The canonical upper-case textual form.
    pub fn canonical(&self) -> (r: String)
        ensures
            r@ == technology_text(*self),
    {
        match self {
            Technology::OpenVpn => "OPENVPN".to_owned(),
            Technology::NordLynx => "NORDLYNX".to_owned(),
        }
    }
}

impl Protocol {
    /// Parse a `Protocol` from text, ignoring ASCII case.
    pub fn from_text(s: &str) -> (r: Option<Protocol>)
        ensures
            r == protocol_of(s@),
    {
        if crate::text::ci_eq(s, "TCP") {
            Some(Protocol::Tcp)
        } else if crate::text::ci_eq(s, "UDP") {
            Some(Protocol::Udp)
        } else {
            None
        }
    }

    /// The canonical upper-case textual form.
    pub fn canonical(&self) -> (r: String)
        ensures
            r@ == protocol_text(*self),
    {
        match self {
            Protocol::Tcp => "TCP".to_owned(),
            Protocol::Udp => "UDP".to_owned(),
        }
    }
}

/// Serialising a `Technology` to its canonical text and parsing that text
/// back yields the same value: the round-trip law for the enumeration.
pub proof fn lemma_technology_round_trip(t: Technology)
    ensures
        technology_of(technology_text(t)) == Some(t),
{
    reveal_strlit("OPENVPN");
    reveal_strlit("NORDLYNX");
    match t {
        Technology::OpenVpn => {
            assert(ci_seq_eq("OPENVPN"@, "OPENVPN"@));
        },
        Technology::NordLynx => {
            assert("NORDLYNX"@.len() != "OPENVPN"@.len());
            assert(ci_seq_eq("NORDLYNX"@, "NORDLYNX"@));
        },
    }
}

/// Any text that parses as a `Technology` equals, up to ASCII case, the
/// canonical text of the parsed value: the reverse round-trip law.
pub proof fn lemma_technology_parse_canonical(s: Seq<char>)
    requires
        technology_of(s) is Some,
    ensures
        ci_seq_eq(s, technology_text(technology_of(s)->Some_0)),
{
}

/// Serialising a `Protocol` to its canonical text and parsing that text back
/// yields the same value: the round-trip law for the enumeration.
pub proof fn lemma_protocol_round_trip(p: Protocol)
    ensures
        protocol_of(protocol_text(p)) == Some(p),
{
    reveal_strlit("TCP");
    reveal_strlit("UDP");
    match p {
        Protocol::Tcp => {
            assert(ci_seq_eq("TCP"@, "TCP"@));
        },
        Protocol::Udp => {
            assert(!ci_seq_eq("UDP"@, "TCP"@)) by {
                assert(!crate::text::ci_match_char("UDP"@[0], "TCP"@[0]));
            }
            assert(ci_seq_eq("UDP"@, "UDP"@));
        },
    }
}

/// Any text that parses as a `Protocol` equals, up to ASCII case, the
/// canonical text of the parsed value: the reverse round-trip law.
pub proof fn lemma_protocol_parse_canonical(s: Seq<char>)
    requires
        protocol_of(s) is Some,
    ensures
        ci_seq_eq(s, protocol_text(protocol_of(s)->Some_0)),
{
}

/// The fixed, calendar-approximate normalization of a captured uptime to
/// whole seconds.
pub open spec fn uptime_total(y: int, mo: int, d: int, h: int, mi: int, s: int) -> int {
    s + mi * 60 + h * 3600 + d * 86400 + mo * 2628000 + y * 31540000
}

/// Normalize a captured uptime to whole seconds: seconds, plus 60 per
/// minute, 3,600 per hour, 86,400 per day, 2,628,000 per month and
/// 31,540,000 per year. `None` exactly when the total does not fit `u64`.
pub fn uptime_seconds(years: u64, months: u64, days: u64, hours: u64, minutes: u64, seconds: u64)
    -> (r: Option<u64>)
    ensures
        match r {
            Some(v) => v as int == uptime_total(
                years as int,
                months as int,
                days as int,
                hours as int,
                minutes as int,
                seconds as int,
            ) && uptime_total(
                years as int,
                months as int,
                days as int,
                hours as int,
                minutes as int,
                seconds as int,
            ) <= u64::MAX,
            None => uptime_total(
                years as int,
                months as int,
                days as int,
                hours as int,
                minutes as int,
                seconds as int,
            ) > u64::MAX,
        },
{
    let total: u128 = seconds as u128 + minutes as u128 * 60 + hours as u128 * 3600
        + days as u128 * 86400 + months as u128 * 2628000 + years as u128 * 31540000;
    if total > u64::MAX as u128 {
        None
    } else {
        Some(total as u64)
    }
}

/// Well-formedness of a captured calendar date: the field bounds that the
/// date conversion guarantees.
pub open spec fn date_wf(d: Date) -> bool {
    1 <= d.month <= 12 && 1 <= d.day <= 31
}

} // verus!
