use nordvpn::domain::{uptime_seconds, Protocol, Technology};
use nordvpn::grammar::parse_list;

#[test]
fn technology_round_trip_on_values() {
    for t in [Technology::OpenVpn, Technology::NordLynx] {
        let text = t.canonical();
        assert_eq!(Technology::from_text(&text), Some(t));
    }
    assert_eq!(Technology::from_text("OpenVPN"), Some(Technology::OpenVpn));
    assert_eq!(Technology::from_text("nordlynx"), Some(Technology::NordLynx));
    assert_eq!(Technology::from_text("wireguard"), None);
    assert_eq!(Technology::OpenVpn.canonical(), "OPENVPN".to_string());
}

#[test]
fn protocol_round_trip_on_values() {
    for p in [Protocol::Tcp, Protocol::Udp] {
        let text = p.canonical();
        assert_eq!(Protocol::from_text(&text), Some(p));
    }
    assert_eq!(Protocol::from_text("tcp"), Some(Protocol::Tcp));
    assert_eq!(Protocol::from_text("Udp"), Some(Protocol::Udp));
    assert_eq!(Protocol::from_text("sctp"), None);
    assert_eq!(Protocol::Udp.canonical(), "UDP".to_string());
}

#[test]
fn uptime_normalization_formula() {
    assert_eq!(
        uptime_seconds(1, 2, 3, 4, 5, 6),
        Some(31_540_000 + 2 * 2_628_000 + 3 * 86_400 + 4 * 3_600 + 5 * 60 + 6)
    );
    assert_eq!(uptime_seconds(0, 0, 0, 0, 0, 0), Some(0));
    assert_eq!(uptime_seconds(0, 0, 0, 0, 2, 30), Some(150));
    // A total beyond 64 bits is reported, not wrapped.
    assert_eq!(uptime_seconds(u64::MAX, 0, 0, 0, 0, 0), None);
}

#[test]
fn parse_list_tokens() {
    assert_eq!(
        parse_list("europe, asia, africa"),
        Some(vec!["europe".to_string(), "asia".to_string(), "africa".to_string()])
    );
    assert_eq!(parse_list(""), None);
    assert_eq!(parse_list(" , ,, "), None);
    assert_eq!(
        parse_list("alpha,beta\n"),
        Some(vec!["alpha".to_string(), "beta".to_string()])
    );
}
