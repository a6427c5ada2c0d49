//! The per-operation result interpreters: the fixed decision order applied
//! to a captured output.
//!
//! Each interpreter takes the issued command line (for diagnostics), whether
//! the process exited successfully, and the captured standard output, and
//! follows the same order: known sentinel phrases first (they override the
//! exit status), then the exit status, then pattern extraction. A missing
//! required field is `BadOutput`; a captured field whose semantic conversion
//! fails is `BadDateFormat` or `BadVersion`.

use vstd::prelude::*;

use crate::domain::{
    Account, CliError, Connected, ConnectOption, Date, IpAddress, NordVPN, Protocol, Status,
    Technology, Transfer, Version, uptime_total,
};
use crate::foreign::{
    byte_quantity_of, date_of, no_leading_zero, parse_byte_quantity, parse_month_day_year,
    parse_version_triple,
};
use crate::grammar::{
    ci_alt_from, connect_from, expires_from, find_ci_alt, find_connect, find_expires, find_ip,
    find_line_field, find_run_field, find_transfer, find_uptime, find_version, ip_from,
    ip_v4_at, IpCapture, line_field_from, list_texts, parse_list, run_field_from, transfer_from,
    uptime_from, version_match,
};
use crate::text::{contains, contains_lit, dec_val, lemma_run_end_props, str_eq, CharClass};

verus! {

/// `r` is exactly the failed-command error carrying `cmd`.
pub open spec fn is_failed_command<T>(r: Result<T, CliError>, cmd: Vec<String>) -> bool {
    r matches Err(CliError::FailedCommand(c)) && c == cmd
}

/// `r` is exactly the unrecognized-output error carrying `cmd`.
pub open spec fn is_bad_output<T>(r: Result<T, CliError>, cmd: Vec<String>) -> bool {
    r matches Err(CliError::BadOutput(c)) && c == cmd
}

impl NordVPN {
    /// Interpret the account operation's output. The "not logged in"
    /// sentinel takes priority over the exit status and yields the
    /// alternate outcome; afterwards the email, service state and expiry
    /// date are all required.
    pub fn account_from_output(cmd: Vec<String>, success: bool, stdout: &str) -> (r: Result<
        Option<Account>,
        CliError,
    >)
        ensures
            contains_lit(stdout@, "You are not logged in."@) ==> (r matches Ok(a) && a is None),
            !contains_lit(stdout@, "You are not logged in."@) && !success ==> is_failed_command(r, cmd),
            !contains_lit(stdout@, "You are not logged in."@) && success ==> {
                let em = line_field_from(stdout@, 0, "Email Address:"@, false);
                let ac = run_field_from(stdout@, 0, "VPN Service:"@, CharClass::Word, true);
                let ex = expires_from(stdout@, 0);
                if em is None || ac is None || ex is None {
                    is_bad_output(r, cmd)
                } else {
                    let date_text = stdout@.subrange(ex->Some_0.0, ex->Some_0.1) + "-"@
                        + stdout@.subrange(ex->Some_0.2, ex->Some_0.3) + "-"@ + stdout@.subrange(
                        ex->Some_0.4,
                        ex->Some_0.5,
                    );
                    match date_of(date_text) {
                        Some(ymd) => r matches Ok(a) && a matches Some(acct) && acct.email@
                            == stdout@.subrange(em->Some_0.0, em->Some_0.1) && acct.active == (
                        stdout@.subrange(ac->Some_0.0, ac->Some_0.1) == "Active"@) && acct.expires
                            == (Date { year: ymd.0, month: ymd.1, day: ymd.2 })
                            && crate::domain::date_wf(acct.expires),
                        None => r matches Err(e) && e matches CliError::BadDateFormat(s) && s@
                            == date_text,
                    }
                }
            },
    {
        proof {
            reveal_strlit("You are not logged in.");
            reveal_strlit("Email Address:");
            reveal_strlit("VPN Service:");
            reveal_strlit("-");
        }
        if contains(stdout, "You are not logged in.") {
            return Ok(None);
        }
        if !success {
            return Err(CliError::FailedCommand(cmd));
        }
        let em = match find_line_field(stdout, "Email Address:", false) {
            Some(c) => c,
            None => {
                return Err(CliError::BadOutput(cmd));
            },
        };
        let ac = match find_run_field(stdout, "VPN Service:", CharClass::Word, true) {
            Some(c) => c,
            None => {
                return Err(CliError::BadOutput(cmd));
            },
        };
        let ex = match find_expires(stdout) {
            Some(c) => c,
            None => {
                return Err(CliError::BadOutput(cmd));
            },
        };
        let email = stdout.substring_char(em.0, em.1).to_owned();
        let active = str_eq(stdout.substring_char(ac.0, ac.1), "Active");
        let mut date_text = stdout.substring_char(ex.0, ex.1).to_owned();
        date_text.append("-");
        date_text.append(stdout.substring_char(ex.2, ex.3));
        date_text.append("-");
        date_text.append(stdout.substring_char(ex.4, ex.5));
        match parse_month_day_year(date_text.as_str()) {
            Some(ymd) => Ok(
                Some(
                    Account {
                        email,
                        active,
                        expires: Date { year: ymd.0, month: ymd.1, day: ymd.2 },
                    },
                ),
            ),
            None => Err(CliError::BadDateFormat(date_text)),
        }
    }

    /// Interpret a word-list operation's output (cities, countries,
    /// groups): a failing exit status fails the command, a text without a
    /// single list token is unrecognized, and otherwise the tokens are
    /// returned in order, none dropped and none invented.
    pub fn list_from_output(cmd: Vec<String>, success: bool, stdout: &str) -> (r: Result<
        Vec<String>,
        CliError,
    >)
        ensures
            !success ==> is_failed_command(r, cmd),
            success && list_texts(stdout@, 0).len() == 0 ==> is_bad_output(r, cmd),
            success && list_texts(stdout@, 0).len() > 0 ==> (r matches Ok(v) && v@.len()
                == list_texts(stdout@, 0).len() && (forall|k: int|
                0 <= k < v@.len() ==> v@[k]@ == list_texts(stdout@, 0)[k])),
    {
        if !success {
            return Err(CliError::FailedCommand(cmd));
        }
        match parse_list(stdout) {
            Some(v) => Ok(v),
            None => Err(CliError::BadOutput(cmd)),
        }
    }

    /// The full command line that a connect invocation issues: the tool
    /// name, the subcommand, then the option's positional arguments in
    /// their fixed order (country before city for the paired variant).
    pub fn connect_command(option: &ConnectOption) -> (r: Vec<String>)
        ensures
            r@.len() >= 2 && r@[0]@ == "nordvpn"@ && r@[1]@ == "connect"@,
            match option {
                ConnectOption::Country(c) => r@.len() == 3 && r@[2]@ == c@,
                ConnectOption::Server(s) => r@.len() == 3 && r@[2]@ == s@,
                ConnectOption::CountryCode(c) => r@.len() == 3 && r@[2]@ == c@,
                ConnectOption::City(c) => r@.len() == 3 && r@[2]@ == c@,
                ConnectOption::Group(g) => r@.len() == 3 && r@[2]@ == g@,
                ConnectOption::CountryCity(c, ci) => r@.len() == 4 && r@[2]@ == c@ && r@[3]@
                    == ci@,
            },
    {
        let mut run: Vec<String> = Vec::new();
        run.push("nordvpn".to_owned());
        run.push("connect".to_owned());
        match option {
            ConnectOption::Country(c) => run.push(c.clone()),
            ConnectOption::Server(s) => run.push(s.clone()),
            ConnectOption::CountryCode(c) => run.push(c.clone()),
            ConnectOption::City(c) => run.push(c.clone()),
            ConnectOption::Group(g) => run.push(g.clone()),
            ConnectOption::CountryCity(c, ci) => {
                run.push(c.clone());
                run.push(ci.clone());
            },
        }
        run
    }

    /// Interpret the connect operation's output: the confirmation line
    /// yields the country, server number and hostname.
    pub fn connect_from_output(cmd: Vec<String>, success: bool, stdout: &str) -> (r: Result<
        Connected,
        CliError,
    >)
        ensures
            !success ==> is_failed_command(r, cmd),
            success ==> match connect_from(stdout@, 0) {
                None => is_bad_output(r, cmd),
                Some(cap) => r matches Ok(con) && con.country@ == stdout@.subrange(cap.0, cap.1)
                    && con.server as int == cap.2 && con.hostname@ == stdout@.subrange(
                    cap.3,
                    cap.4,
                ),
            },
    {
        if !success {
            return Err(CliError::FailedCommand(cmd));
        }
        match find_connect(stdout) {
            Some(cap) => Ok(
                Connected {
                    country: stdout.substring_char(cap.0, cap.1).to_owned(),
                    server: cap.2,
                    hostname: stdout.substring_char(cap.3, cap.4).to_owned(),
                },
            ),
            None => Err(CliError::BadOutput(cmd)),
        }
    }

    /// Interpret the disconnect operation's output. The two sentinel
    /// phrases take priority over the exit status and map to the boolean
    /// outcome; with neither present, a failing exit status fails the
    /// command and a successful one is unrecognized output.
    pub fn disconnect_from_output(cmd: Vec<String>, success: bool, stdout: &str) -> (r: Result<
        bool,
        CliError,
    >)
        ensures
            contains_lit(stdout@, "You are not connected to NordVPN."@) ==> r == Ok::<
                bool,
                CliError,
            >(false),
            !contains_lit(stdout@, "You are not connected to NordVPN."@) && contains_lit(
                stdout@,
                "You are disconnected from NordVPN."@,
            ) ==> r == Ok::<bool, CliError>(true),
            !contains_lit(stdout@, "You are not connected to NordVPN."@) && !contains_lit(
                stdout@,
                "You are disconnected from NordVPN."@,
            ) ==> {
                if !success {
                    is_failed_command(r, cmd)
                } else {
                    is_bad_output(r, cmd)
                }
            },
    {
        proof {
            reveal_strlit("You are not connected to NordVPN.");
            reveal_strlit("You are disconnected from NordVPN.");
        }
        if contains(stdout, "You are not connected to NordVPN.") {
            return Ok(false);
        }
        if contains(stdout, "You are disconnected from NordVPN.") {
            return Ok(true);
        }
        if !success {
            return Err(CliError::FailedCommand(cmd));
        }
        Err(CliError::BadOutput(cmd))
    }

    /// Interpret the login operation's output. The "already logged in"
    /// sentinel takes priority over the exit status; otherwise the browser
    /// continuation link is required, alone on the tail of the text.
    pub fn login_from_output(cmd: Vec<String>, success: bool, stdout: &str) -> (r: Result<
        Option<String>,
        CliError,
    >)
        ensures
            contains_lit(stdout@, "You are already logged in."@) ==> (r matches Ok(u) && u
                is None),
            !contains_lit(stdout@, "You are already logged in."@) && !success ==> is_failed_command(r, cmd),
            !contains_lit(stdout@, "You are already logged in."@) && success ==> match
                line_field_from(stdout@, 0, "Continue in the browser:"@, true) {
                None => is_bad_output(r, cmd),
                Some(cap) => r matches Ok(u) && u matches Some(url) && url@ == stdout@.subrange(
                    cap.0,
                    cap.1,
                ),
            },
    {
        proof {
            reveal_strlit("You are already logged in.");
            reveal_strlit("Continue in the browser:");
        }
        if contains(stdout, "You are already logged in.") {
            return Ok(None);
        }
        if !success {
            return Err(CliError::FailedCommand(cmd));
        }
        match find_line_field(stdout, "Continue in the browser:", true) {
            Some(cap) => Ok(Some(stdout.substring_char(cap.0, cap.1).to_owned())),
            None => Err(CliError::BadOutput(cmd)),
        }
    }

    /// Interpret the logout operation's output. The two sentinel phrases
    /// take priority over the exit status and map to the boolean outcome.
    pub fn logout_from_output(cmd: Vec<String>, success: bool, stdout: &str) -> (r: Result<
        bool,
        CliError,
    >)
        ensures
            contains_lit(stdout@, "You are not logged in."@) ==> r == Ok::<bool, CliError>(false),
            !contains_lit(stdout@, "You are not logged in."@) && contains_lit(
                stdout@,
                "You are logged out."@,
            ) ==> r == Ok::<bool, CliError>(true),
            !contains_lit(stdout@, "You are not logged in."@) && !contains_lit(
                stdout@,
                "You are logged out."@,
            ) ==> {
                if !success {
                    is_failed_command(r, cmd)
                } else {
                    is_bad_output(r, cmd)
                }
            },
    {
        proof {
            reveal_strlit("You are not logged in.");
            reveal_strlit("You are logged out.");
        }
        if contains(stdout, "You are not logged in.") {
            return Ok(false);
        }
        if contains(stdout, "You are logged out.") {
            return Ok(true);
        }
        if !success {
            return Err(CliError::FailedCommand(cmd));
        }
        Err(CliError::BadOutput(cmd))
    }

    /// Interpret the version operation's output: the trailing dotted triple
    /// of digits is required, and it must pass semantic-version validation
    /// (no leading zeros, each component fitting a 64-bit number).
    pub fn version_from_output(cmd: Vec<String>, success: bool, stdout: &str) -> (r: Result<
        Version,
        CliError,
    >)
        ensures
            !success ==> is_failed_command(r, cmd),
            success ==> match version_match(stdout@) {
                None => is_bad_output(r, cmd),
                Some(cap) => {
                    let maj = stdout@.subrange(cap.0, cap.1);
                    let min = stdout@.subrange(cap.2, cap.3);
                    let pat = stdout@.subrange(cap.4, cap.5);
                    if no_leading_zero(maj) && no_leading_zero(min) && no_leading_zero(pat)
                        && dec_val(maj) <= u64::MAX && dec_val(min) <= u64::MAX && dec_val(pat)
                        <= u64::MAX {
                        r matches Ok(v) && v.major as int == dec_val(maj) && v.minor as int
                            == dec_val(min) && v.patch as int == dec_val(pat)
                    } else {
                        r matches Err(e) && e matches CliError::BadVersion(s) && s@ == maj + "."@
                            + min + "."@ + pat
                    }
                },
            },
    {
        proof {
            reveal_strlit(".");
        }
        if !success {
            return Err(CliError::FailedCommand(cmd));
        }
        let cap = match find_version(stdout) {
            Some(c) => c,
            None => {
                return Err(CliError::BadOutput(cmd));
            },
        };
        proof {
            lemma_run_end_props(stdout@, CharClass::Digit, cap.0 as int);
            lemma_run_end_props(stdout@, CharClass::Digit, cap.2 as int);
            lemma_run_end_props(stdout@, CharClass::Digit, cap.4 as int);
        }
        let maj = stdout.substring_char(cap.0, cap.1);
        let min = stdout.substring_char(cap.2, cap.3);
        let pat = stdout.substring_char(cap.4, cap.5);
        match parse_version_triple(maj, min, pat) {
            Some(v) => Ok(Version { major: v.0, minor: v.1, patch: v.2 }),
            None => {
                let mut text = maj.to_owned();
                text.append(".");
                text.append(min);
                text.append(".");
                text.append(pat);
                Err(CliError::BadVersion(text))
            },
        }
    }

    /// Interpret the status operation's output. The "Disconnected" sentinel
    /// takes priority over the exit status and yields the alternate
    /// outcome; afterwards all eight fields are co-required, and the
    /// captured transfer quantities must pass byte-quantity parsing.
    pub fn status_from_output(cmd: Vec<String>, success: bool, stdout: &str) -> (r: Result<
        Option<Status>,
        CliError,
    >)
        ensures
            contains_lit(stdout@, "Disconnected"@) ==> (r matches Ok(s) && s is None),
            !contains_lit(stdout@, "Disconnected"@) && !success ==> is_failed_command(r, cmd),
            !contains_lit(stdout@, "Disconnected"@) && success ==> {
                let host = run_field_from(stdout@, 0, "Current server:"@, CharClass::HostChar,
                    false);
                let country = run_field_from(stdout@, 0, "Country:"@, CharClass::WordOrSpace,
                    false);
                let city = run_field_from(stdout@, 0, "City:"@, CharClass::WordOrSpace, false);
                let ip = ip_from(stdout@, 0);
                let tech = ci_alt_from(stdout@, 0, "Current technology:"@, "OPENVPN"@,
                    "NORDLYNX"@);
                let proto = ci_alt_from(stdout@, 0, "Current technology:"@, "TCP"@, "UDP"@);
                let tr = transfer_from(stdout@, 0);
                let up = uptime_from(stdout@, 0);
                if host is None || country is None || city is None || ip is None || tech is None
                    || proto is None || tr is None || up is None {
                    is_bad_output(r, cmd)
                } else {
                    let rx = byte_quantity_of(stdout@.subrange(tr->Some_0.0, tr->Some_0.1));
                    let tx = byte_quantity_of(stdout@.subrange(tr->Some_0.2, tr->Some_0.3));
                    let total = uptime_total(up->Some_0.0, up->Some_0.1, up->Some_0.2,
                        up->Some_0.3, up->Some_0.4, up->Some_0.5);
                    if rx is None || tx is None || total > u64::MAX {
                        is_bad_output(r, cmd)
                    } else {
                        r matches Ok(s) && s matches Some(st) && st.hostname@ == stdout@.subrange(
                            host->Some_0.0,
                            host->Some_0.1,
                        ) && st.country@ == stdout@.subrange(country->Some_0.0, country->Some_0.1)
                            && st.city@ == stdout@.subrange(city->Some_0.0, city->Some_0.1) && (
                        if ip->Some_0.0 {
                            st.ip matches IpAddress::V4(a, b, c, d) && ip_v4_at(
                                stdout@,
                                ip->Some_0.1,
                            ) matches Some(vv) && vv.0 == a as int && vv.1 == b as int && vv.2
                                == c as int && vv.3 == d as int
                        } else {
                            st.ip matches IpAddress::V6(s6) && s6@ == stdout@.subrange(
                                ip->Some_0.1,
                                ip->Some_0.2,
                            )
                        }) && st.technology == (if tech->Some_0 {
                            Technology::OpenVpn
                        } else {
                            Technology::NordLynx
                        }) && st.protocol == (if proto->Some_0 {
                            Protocol::Tcp
                        } else {
                            Protocol::Udp
                        }) && st.transfer.received == rx->Some_0 && st.transfer.sent == tx->Some_0
                            && st.uptime as int == total
                    }
                }
            },
    {
        proof {
            reveal_strlit("Disconnected");
            reveal_strlit("Current server:");
            reveal_strlit("Country:");
            reveal_strlit("City:");
            reveal_strlit("Current technology:");
        }
        if contains(stdout, "Disconnected") {
            return Ok(None);
        }
        if !success {
            return Err(CliError::FailedCommand(cmd));
        }
        let host = match find_run_field(stdout, "Current server:", CharClass::HostChar, false) {
            Some(c) => c,
            None => {
                return Err(CliError::BadOutput(cmd));
            },
        };
        let country = match find_run_field(stdout, "Country:", CharClass::WordOrSpace, false) {
            Some(c) => c,
            None => {
                return Err(CliError::BadOutput(cmd));
            },
        };
        let city = match find_run_field(stdout, "City:", CharClass::WordOrSpace, false) {
            Some(c) => c,
            None => {
                return Err(CliError::BadOutput(cmd));
            },
        };
        let ipcap = match find_ip(stdout) {
            Some(c) => c,
            None => {
                return Err(CliError::BadOutput(cmd));
            },
        };
        let tech = match find_ci_alt(stdout, "Current technology:", "OPENVPN", "NORDLYNX") {
            Some(b) => b,
            None => {
                return Err(CliError::BadOutput(cmd));
            },
        };
        let proto = match find_ci_alt(stdout, "Current technology:", "TCP", "UDP") {
            Some(b) => b,
            None => {
                return Err(CliError::BadOutput(cmd));
            },
        };
        let tr = match find_transfer(stdout) {
            Some(c) => c,
            None => {
                return Err(CliError::BadOutput(cmd));
            },
        };
        let up = match find_uptime(stdout) {
            Some(c) => c,
            None => {
                return Err(CliError::BadOutput(cmd));
            },
        };
        let rx = match parse_byte_quantity(stdout.substring_char(tr.0, tr.1)) {
            Some(v) => v,
            None => {
                return Err(CliError::BadOutput(cmd));
            },
        };
        let tx = match parse_byte_quantity(stdout.substring_char(tr.2, tr.3)) {
            Some(v) => v,
            None => {
                return Err(CliError::BadOutput(cmd));
            },
        };
        let secs = match up {
            Some(v) => v,
            None => {
                return Err(CliError::BadOutput(cmd));
            },
        };
        let ip = match ipcap {
            IpCapture::V4(a, b, c, d, _s, _e) => IpAddress::V4(a, b, c, d),
            IpCapture::V6(s6, e6) => IpAddress::V6(stdout.substring_char(s6, e6).to_owned()),
        };
        Ok(
            Some(
                Status {
                    hostname: stdout.substring_char(host.0, host.1).to_owned(),
                    country: stdout.substring_char(country.0, country.1).to_owned(),
                    city: stdout.substring_char(city.0, city.1).to_owned(),
                    ip,
                    technology: if tech {
                        Technology::OpenVpn
                    } else {
                        Technology::NordLynx
                    },
                    protocol: if proto {
                        Protocol::Tcp
                    } else {
                        Protocol::Udp
                    },
                    transfer: Transfer { received: rx, sent: tx },
                    uptime: secs,
                },
            ),
        )
    }
}

} // verus!
