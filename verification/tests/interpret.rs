use nordvpn::domain::{
    Account, CliError, ConnectOption, Date, IpAddress, NordVPN, Protocol, Technology, Version,
};

fn cmd(parts: &[&str]) -> Vec<String> {
    parts.iter().map(|p| p.to_string()).collect()
}

#[test]
fn account_sentinel_overrides_exit_status() {
    let c = cmd(&["nordvpn", "account"]);
    let r = NordVPN::account_from_output(c, false, "You are not logged in.\n");
    assert_eq!(r, Ok(None));
}

#[test]
fn account_full_extraction() {
    let c = cmd(&["nordvpn", "account"]);
    let out = "Email Address: a@b.com \nVPN Service: Active \n(Expires on Jan 1st, 2030)\n";
    let r = NordVPN::account_from_output(c, true, out);
    assert_eq!(
        r,
        Ok(Some(Account {
            email: "a@b.com".to_string(),
            active: true,
            expires: Date { year: 2030, month: 1, day: 1 },
        }))
    );
}

#[test]
fn account_inactive_service() {
    let c = cmd(&["nordvpn", "account"]);
    let out = "Email Address: a@b.com \nVPN Service: Expired \n(Expires on Feb 28th, 2021)\n";
    let r = NordVPN::account_from_output(c, true, out).unwrap().unwrap();
    assert!(!r.active);
    assert_eq!(r.expires, Date { year: 2021, month: 2, day: 28 });
}

#[test]
fn account_missing_field_is_bad_output() {
    let c = cmd(&["nordvpn", "account"]);
    let out = "Email Address: a@b.com \nVPN Service: Active \n";
    let r = NordVPN::account_from_output(c.clone(), true, out);
    assert_eq!(r, Err(CliError::BadOutput(c)));
}

#[test]
fn account_bad_date_is_distinct() {
    let c = cmd(&["nordvpn", "account"]);
    // The shape matches the grammar, but Feb 31st is not a calendar date.
    let out = "Email Address: a@b.com \nVPN Service: Active \n(Expires on Feb 31st, 2030)\n";
    let r = NordVPN::account_from_output(c, true, out);
    assert_eq!(r, Err(CliError::BadDateFormat("Feb-31-2030".to_string())));
}

#[test]
fn account_failed_command() {
    let c = cmd(&["nordvpn", "account"]);
    let r = NordVPN::account_from_output(c.clone(), false, "some other text");
    assert_eq!(r, Err(CliError::FailedCommand(c)));
}

#[test]
fn list_preserves_order_without_duplicates() {
    let c = cmd(&["nordvpn", "countries"]);
    let r = NordVPN::list_from_output(c, true, "europe, asia, africa");
    assert_eq!(
        r,
        Ok(vec!["europe".to_string(), "asia".to_string(), "africa".to_string()])
    );
}

#[test]
fn list_zero_tokens_is_bad_output() {
    let c = cmd(&["nordvpn", "groups"]);
    let r = NordVPN::list_from_output(c.clone(), true, " .. !! \n");
    assert_eq!(r, Err(CliError::BadOutput(c)));
}

#[test]
fn list_failing_exit_status() {
    let c = cmd(&["nordvpn", "cities", "Germany"]);
    let r = NordVPN::list_from_output(c.clone(), false, "europe, asia");
    assert_eq!(r, Err(CliError::FailedCommand(c)));
}

#[test]
fn list_single_token() {
    let c = cmd(&["nordvpn", "cities", "Germany"]);
    let r = NordVPN::list_from_output(c, true, "Berlin\n");
    assert_eq!(r, Ok(vec!["Berlin".to_string()]));
}

#[test]
fn connect_country_city_argument_order() {
    let option = ConnectOption::CountryCity("Germany".to_string(), "Berlin".to_string());
    let run = NordVPN::connect_command(&option);
    assert_eq!(run, cmd(&["nordvpn", "connect", "Germany", "Berlin"]));
}

#[test]
fn connect_single_argument_variants() {
    let run = NordVPN::connect_command(&ConnectOption::Country("Canada".to_string()));
    assert_eq!(run, cmd(&["nordvpn", "connect", "Canada"]));
    let run = NordVPN::connect_command(&ConnectOption::Server("de123".to_string()));
    assert_eq!(run, cmd(&["nordvpn", "connect", "de123"]));
    let run = NordVPN::connect_command(&ConnectOption::CountryCode("de".to_string()));
    assert_eq!(run, cmd(&["nordvpn", "connect", "de"]));
    let run = NordVPN::connect_command(&ConnectOption::City("Oslo".to_string()));
    assert_eq!(run, cmd(&["nordvpn", "connect", "Oslo"]));
    let run = NordVPN::connect_command(&ConnectOption::Group("p2p".to_string()));
    assert_eq!(run, cmd(&["nordvpn", "connect", "p2p"]));
}

#[test]
fn connect_confirmation_extraction() {
    let c = cmd(&["nordvpn", "connect", "United Kingdom"]);
    let out = "You are connected to United Kingdom #1234 (uk1234.nordvpn.com)!\n";
    let r = NordVPN::connect_from_output(c, true, out).unwrap();
    assert_eq!(r.country, "United Kingdom");
    assert_eq!(r.server, 1234);
    assert_eq!(r.hostname, "uk1234.nordvpn.com");
}

#[test]
fn connect_unrecognized_output() {
    let c = cmd(&["nordvpn", "connect", "x"]);
    let r = NordVPN::connect_from_output(c.clone(), true, "Connecting...\n");
    assert_eq!(r, Err(CliError::BadOutput(c)));
}

#[test]
fn disconnect_sentinels() {
    let c = cmd(&["nordvpn", "disconnect"]);
    let r = NordVPN::disconnect_from_output(c.clone(), false, "You are not connected to NordVPN.\n");
    assert_eq!(r, Ok(false));
    let r = NordVPN::disconnect_from_output(c.clone(), true, "You are disconnected from NordVPN.\n");
    assert_eq!(r, Ok(true));
    let r = NordVPN::disconnect_from_output(c.clone(), false, "???");
    assert_eq!(r, Err(CliError::FailedCommand(c.clone())));
    let r = NordVPN::disconnect_from_output(c.clone(), true, "???");
    assert_eq!(r, Err(CliError::BadOutput(c)));
}

#[test]
fn logout_sentinels() {
    let c = cmd(&["nordvpn", "logout"]);
    let r = NordVPN::logout_from_output(c.clone(), false, "You are not logged in.\n");
    assert_eq!(r, Ok(false));
    let r = NordVPN::logout_from_output(c.clone(), true, "You are logged out.\n");
    assert_eq!(r, Ok(true));
    let r = NordVPN::logout_from_output(c.clone(), true, "???");
    assert_eq!(r, Err(CliError::BadOutput(c)));
}

#[test]
fn login_sentinel_and_url() {
    let c = cmd(&["nordvpn", "login"]);
    let r = NordVPN::login_from_output(c.clone(), false, "You are already logged in.\n");
    assert_eq!(r, Ok(None));
    let out = "Continue in the browser: https://example.test/login?x=1 \n";
    let r = NordVPN::login_from_output(c, true, out);
    assert_eq!(r, Ok(Some("https://example.test/login?x=1".to_string())));
}

#[test]
fn version_extraction() {
    let c = cmd(&["nordvpn", "version"]);
    let r = NordVPN::version_from_output(c, true, "NordVPN Version 3.16.2\n");
    assert_eq!(r, Ok(Version { major: 3, minor: 16, patch: 2 }));
}

#[test]
fn version_leading_zero_is_bad_version() {
    let c = cmd(&["nordvpn", "version"]);
    let r = NordVPN::version_from_output(c, true, "NordVPN Version 1.02.3\n");
    assert_eq!(r, Err(CliError::BadVersion("1.02.3".to_string())));
}

#[test]
fn version_component_overflow_is_bad_version() {
    let c = cmd(&["nordvpn", "version"]);
    let r = NordVPN::version_from_output(c, true, "v 1.99999999999999999999.3 \n");
    assert_eq!(
        r,
        Err(CliError::BadVersion("1.99999999999999999999.3".to_string()))
    );
}

#[test]
fn login_url_must_close_the_text() {
    let c = cmd(&["nordvpn", "login"]);
    let out = "Continue in the browser: https://example.test\nSomething else\n";
    let r = NordVPN::login_from_output(c.clone(), true, out);
    assert_eq!(r, Err(CliError::BadOutput(c)));
}

#[test]
fn version_without_trailing_whitespace_is_bad_output() {
    let c = cmd(&["nordvpn", "version"]);
    let r = NordVPN::version_from_output(c.clone(), true, "NordVPN Version 3.16.2");
    assert_eq!(r, Err(CliError::BadOutput(c)));
}

fn connected_status_text() -> &'static str {
    "Status: Connected\n\
     Current server: de123.nordvpn.com\n\
     Country: Germany\n\
     City: Berlin\n\
     Server IP: 1.2.3.4\n\
     Current technology: NORDLYNX\n\
     Current technology: UDP\n\
     Transfer: 1 KiB received, 2.5 MB sent\n\
     Uptime: 1 hour 2 minutes 3 seconds\n"
}

#[test]
fn status_full_extraction() {
    let c = cmd(&["nordvpn", "status"]);
    let st = NordVPN::status_from_output(c, true, connected_status_text())
        .unwrap()
        .unwrap();
    assert_eq!(st.hostname, "de123.nordvpn.com");
    assert_eq!(st.country, "Germany");
    assert_eq!(st.city, "Berlin");
    assert_eq!(st.ip, IpAddress::V4(1, 2, 3, 4));
    assert_eq!(st.technology, Technology::NordLynx);
    assert_eq!(st.protocol, Protocol::Udp);
    assert_eq!(st.transfer.received, 1024);
    assert_eq!(st.transfer.sent, 2_500_000);
    assert_eq!(st.uptime, 3723);
}

#[test]
fn status_disconnected_sentinel_overrides_exit_status() {
    let c = cmd(&["nordvpn", "status"]);
    let r = NordVPN::status_from_output(c, false, "Status: Disconnected\n");
    assert_eq!(r, Ok(None));
}

#[test]
fn status_missing_field_is_bad_output() {
    let c = cmd(&["nordvpn", "status"]);
    let out = "Status: Connected\nCurrent server: de123.nordvpn.com\n";
    let r = NordVPN::status_from_output(c.clone(), true, out);
    assert_eq!(r, Err(CliError::BadOutput(c)));
}

#[test]
fn status_colon_separated_address() {
    let c = cmd(&["nordvpn", "status"]);
    let out = connected_status_text().replace("1.2.3.4", "2001:db8::1");
    let st = NordVPN::status_from_output(c, true, &out).unwrap().unwrap();
    assert_eq!(st.ip, IpAddress::V6("2001:db8::1".to_string()));
}

#[test]
fn status_unparsable_transfer_quantity_is_bad_output() {
    let c = cmd(&["nordvpn", "status"]);
    let out = connected_status_text().replace("1 KiB", "1 XYZQ");
    let r = NordVPN::status_from_output(c.clone(), true, &out);
    assert_eq!(r, Err(CliError::BadOutput(c)));
}

#[test]
fn status_uptime_with_all_components_absent_is_zero() {
    let c = cmd(&["nordvpn", "status"]);
    let out = connected_status_text().replace("1 hour 2 minutes 3 seconds", "just now");
    let st = NordVPN::status_from_output(c, true, &out).unwrap().unwrap();
    assert_eq!(st.uptime, 0);
}

#[test]
fn status_uptime_with_years_and_days() {
    let c = cmd(&["nordvpn", "status"]);
    let out = connected_status_text().replace("1 hour 2 minutes 3 seconds", "2 years 5 days");
    let st = NordVPN::status_from_output(c, true, &out).unwrap().unwrap();
    assert_eq!(st.uptime, 2 * 31_540_000 + 5 * 86_400);
}

#[test]
fn status_failed_command() {
    let c = cmd(&["nordvpn", "status"]);
    let r = NordVPN::status_from_output(c.clone(), false, "Status: Connected\n");
    assert_eq!(r, Err(CliError::FailedCommand(c)));
}
