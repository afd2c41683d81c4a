use realmdex::card::{card_labels, int_to_string, week_of};
use realmdex::types::{DailyUptime, ServerCardData, Status};

fn card(status: Status, link: &str) -> ServerCardData<f32> {
    ServerCardData {
        id: 1,
        name: "S".into(),
        icon_path: "".into(),
        link: link.into(),
        status,
        current_players: 42,
        peak_24h: -5,
        uptime_14d: (0..10)
            .map(|i| DailyUptime { day: format!("day{i}"), uptime_percent: i as f32 })
            .collect(),
        sparkline: vec![],
        secure: true,
    }
}

#[test]
fn labels_of_an_online_card() {
    let l = card_labels(&card(Status::Online, "https://discord.gg/x"));
    assert_eq!(l.status_class, "online");
    assert_eq!(l.status_text, "Online");
    assert_eq!(l.link_text, "Join Discord");
    assert_eq!(l.players, "42");
    assert_eq!(l.peak, "-5");
    assert!(l.show_details);
}

#[test]
fn labels_of_a_wip_card() {
    let l = card_labels(&card(Status::Wip, "https://example.com"));
    assert_eq!(l.status_class, "wip");
    assert_eq!(l.status_text, "WIP");
    assert_eq!(l.link_text, "Visit Homepage");
    assert_eq!(l.players, "-");
    assert_eq!(l.peak, "-");
    assert!(!l.show_details);
    let off = card_labels(&card(Status::Offline, "discor"));
    assert_eq!(off.status_text, "Offline");
    assert_eq!(off.link_text, "Visit Homepage");
}

#[test]
fn numbers_print_like_to_string() {
    for n in [0, 7, 10, -1, 12345, i32::MAX, i32::MIN] {
        assert_eq!(int_to_string(n), n.to_string());
    }
}

#[test]
fn week_is_the_first_seven_days() {
    let c = card(Status::Online, "");
    let w = week_of(&c.uptime_14d);
    assert_eq!(w.len(), 7);
    assert_eq!(w[0].day, "day0");
    assert_eq!(w[6].day, "day6");
    let short = week_of(&c.uptime_14d[..3].to_vec());
    assert_eq!(short.len(), 3);
}
