use realmdex::db::BindValue;
use realmdex::poller::{
    is_ok_status, is_pollable, player_count, poll_insert, poll_record, servers_to_poll,
    should_poll, PollObservation, PollRecord, PollTarget,
};

#[test]
fn outcome_table() {
    assert_eq!(
        poll_record(3, &PollObservation::Body(" 42\n".to_string())),
        PollRecord { server_id: 3, online: 1, players: 42 }
    );
    assert_eq!(
        poll_record(3, &PollObservation::Body("lots".to_string())),
        PollRecord { server_id: 3, online: 1, players: 0 }
    );
    for obs in [
        PollObservation::NoHost,
        PollObservation::Unreachable,
        PollObservation::Status(503),
        PollObservation::BodyUnreadable,
    ] {
        assert_eq!(poll_record(9, &obs), PollRecord { server_id: 9, online: 0, players: 0 });
    }
}

#[test]
fn player_counts() {
    assert_eq!(player_count("42"), 42);
    assert_eq!(player_count("\t-3 "), -3);
    assert_eq!(player_count("+8"), 8);
    assert_eq!(player_count("4 2"), 0);
    assert_eq!(player_count(""), 0);
    assert_eq!(player_count("\u{3000}17\u{a0}"), 17);
    assert_eq!(player_count("99999999999999999999"), 0);
}

#[test]
fn which_servers_are_asked() {
    assert!(is_pollable("https://example.com/players"));
    assert!(!is_pollable(""));
    assert!(is_ok_status(200));
    assert!(!is_ok_status(204));
}

#[test]
fn insert_statement_for_two_polls() {
    let recs = vec![
        PollRecord { server_id: 1, online: 1, players: 10 },
        PollRecord { server_id: 2, online: 0, players: 0 },
    ];
    let (sql, binds) = poll_insert(&recs);
    assert_eq!(
        sql,
        "INSERT INTO server_polls (server_id, online, players) VALUES (?1, ?2, ?3),(?4, ?5, ?6)"
    );
    let nums: Vec<i64> = binds
        .iter()
        .map(|b| match b {
            BindValue::Number(n) => *n,
            BindValue::Text(_) => panic!("text bind"),
        })
        .collect();
    assert_eq!(nums, vec![1, 1, 10, 2, 0, 0]);
}

#[test]
fn insert_statement_numbers_past_nine() {
    let recs: Vec<PollRecord> =
        (0..4).map(|i| PollRecord { server_id: i, online: 1, players: i }).collect();
    let (sql, binds) = poll_insert(&recs);
    assert!(sql.ends_with("(?10, ?11, ?12)"));
    assert_eq!(binds.len(), 12);
}

fn target(id: i64, polled: i64, is_wip: i64) -> PollTarget {
    PollTarget { id, host: format!("https://s{id}.example/players"), polled, is_wip }
}

#[test]
fn wip_and_paused_servers_are_not_polled() {
    assert!(should_poll(&target(1, 1, 0)));
    assert!(!should_poll(&target(2, 1, 1)));
    assert!(!should_poll(&target(3, 0, 0)));
    assert!(!should_poll(&target(4, 0, 1)));
    let rows = vec![target(1, 1, 0), target(2, 1, 1), target(3, 0, 0), target(4, 0, 1), target(5, 1, 0)];
    let picked = servers_to_poll(&rows);
    let ids: Vec<i64> = picked.iter().map(|t| t.id).collect();
    assert_eq!(ids, vec![1, 5]);
    assert_eq!(picked[1].host, "https://s5.example/players");
    assert!(servers_to_poll(&vec![target(7, 1, 1)]).is_empty());
    assert!(servers_to_poll(&vec![]).is_empty());
}
