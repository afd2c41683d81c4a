use realmdex::db::{
    admin_row_to_type, admin_rows, assemble_cards, first_admin_row, server_input_binds,
    sparkline_for, update_binds, AdminRow, BindValue, DailyRow, LastPollRow, PeakRow, ServerRow,
    SparkRow,
};
use realmdex::types::{Category, ServerInput, SparkPoint, Status};

fn server(id: i64, is_wip: i64, host: &str) -> ServerRow {
    ServerRow {
        id,
        name: format!("server {id}"),
        icon_path: if id == 1 { Some("/i.png".into()) } else { None },
        discord_link: None,
        host: host.into(),
        is_wip,
    }
}

#[test]
fn cards_are_assembled_from_rows() {
    let servers = vec![
        server(1, 0, "https://a.example/p"),
        server(2, 0, "http://b.example/p"),
        server(3, 1, "https://c.example/p"),
    ];
    let polls = vec![
        LastPollRow { server_id: 2, players: 5, online: 0 },
        LastPollRow { server_id: 1, players: 42, online: 1 },
        LastPollRow { server_id: 1, players: 7, online: 0 },
    ];
    let peaks = vec![PeakRow { server_id: 1, peak: Some(99) }, PeakRow { server_id: 2, peak: None }];
    let daily = vec![
        DailyRow { server_id: 1, day: "2026-01-02".to_string(), uptime_percent: 99.5f32 },
        DailyRow { server_id: 2, day: "2026-01-02".to_string(), uptime_percent: 10.0f32 },
        DailyRow { server_id: 1, day: "2026-01-01".to_string(), uptime_percent: 100.0f32 },
    ];
    let sparks = vec![
        SparkRow { server_id: 1, t_unix: 60, players: 40 },
        SparkRow { server_id: 1, t_unix: 120, players: 42 },
        SparkRow { server_id: 2, t_unix: 60, players: 5 },
    ];
    let cards = assemble_cards(&servers, &polls, &peaks, &daily, &sparks);
    assert_eq!(cards.len(), 3);

    let a = &cards[0];
    assert_eq!(a.id, 1);
    assert_eq!(a.name, "server 1");
    assert_eq!(a.icon_path, "/i.png");
    assert_eq!(a.link, "");
    assert_eq!(a.status, Status::Online);
    assert_eq!(a.current_players, 42);
    assert_eq!(a.peak_24h, 99);
    assert_eq!(a.uptime_14d.len(), 2);
    assert_eq!(a.uptime_14d[0].day, "2026-01-02");
    assert_eq!(a.uptime_14d[0].uptime_percent, 99.5f32);
    assert_eq!(a.uptime_14d[1].day, "2026-01-01");
    assert_eq!(
        a.sparkline,
        vec![SparkPoint { t_unix: 60, players: 40 }, SparkPoint { t_unix: 120, players: 42 }]
    );
    assert!(a.secure);

    let b = &cards[1];
    assert_eq!(b.status, Status::Offline);
    assert_eq!(b.current_players, 5);
    assert_eq!(b.peak_24h, 0);
    assert!(!b.secure);

    let c = &cards[2];
    assert_eq!(c.status, Status::Wip);
    assert_eq!(c.current_players, 0);
    assert!(c.uptime_14d.is_empty());
    assert!(c.sparkline.is_empty());
}

#[test]
fn no_servers_no_cards() {
    let cards = assemble_cards::<f32>(&vec![], &vec![], &vec![], &vec![], &vec![]);
    assert!(cards.is_empty());
}

#[test]
fn player_counts_are_cut_to_32_bits() {
    let sparks = vec![SparkRow { server_id: 4, t_unix: 1, players: (1i64 << 32) + 3 }];
    assert_eq!(sparkline_for(&sparks, 4), vec![SparkPoint { t_unix: 1, players: 3 }]);
}

fn admin_row(category: &str) -> AdminRow {
    AdminRow {
        id: 8,
        name: "N".into(),
        icon_path: None,
        discord_link: Some("https://discord.gg/x".into()),
        host: "https://h/".into(),
        category: category.into(),
        is_wip: 1,
        polled: 2,
        created_at: "2026-01-01 00:00:00".into(),
    }
}

#[test]
fn admin_rows_are_converted() {
    let a = admin_row_to_type(&admin_row("realm-like"));
    assert_eq!(a.category, Category::RealmLike);
    assert_eq!(a.icon_path, "");
    assert_eq!(a.discord_link, "https://discord.gg/x");
    assert!(a.is_wip);
    assert!(!a.polled);
    assert_eq!(admin_row_to_type(&admin_row("pserver")).category, Category::Pserver);
    assert_eq!(admin_row_to_type(&admin_row("other")).category, Category::Pserver);
    assert_eq!(admin_rows(&vec![admin_row("pserver"), admin_row("x")]).len(), 2);
    assert!(first_admin_row(&vec![]).is_none());
    assert_eq!(first_admin_row(&vec![admin_row("pserver")]).unwrap().id, 8);
}

fn texts_and_numbers(b: &[BindValue]) -> Vec<String> {
    b.iter()
        .map(|v| match v {
            BindValue::Text(t) => format!("t:{t}"),
            BindValue::Number(n) => format!("n:{n}"),
        })
        .collect()
}

#[test]
fn input_binds() {
    let input = ServerInput {
        name: "Valor".into(),
        host: "https://valor.example/players".into(),
        category: Category::RealmLike,
        icon_path: None,
        discord_link: Some("https://discord.gg/valormc".into()),
        is_wip: false,
        polled: true,
    };
    assert_eq!(
        texts_and_numbers(&server_input_binds(&input)),
        vec![
            "t:Valor",
            "t:",
            "t:https://discord.gg/valormc",
            "t:https://valor.example/players",
            "t:realm-like",
            "n:0",
            "n:1"
        ]
    );
    let up = texts_and_numbers(&update_binds(77, &input));
    assert_eq!(up.len(), 8);
    assert_eq!(up[7], "n:77");
}

#[test]
fn category_db_text() {
    assert_eq!(Category::Pserver.as_db_str(), "pserver");
    assert_eq!(Category::RealmLike.as_db_str(), "realm-like");
    assert_eq!(Category::from_db_str(Category::RealmLike.as_db_str()), Category::RealmLike);
}
