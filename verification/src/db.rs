//! The rows that the site reads from its database, how server cards are put
//! together from them, and the values bound to the admin statements.
use vstd::prelude::*;

use crate::text::has_prefix;
use crate::types::{
    AdminServerRow, Category, DailyUptime, ServerCardData, ServerInput, SparkPoint, Status,
};

verus! {

/// A row of `servers` as the card listing reads it.
#[derive(Clone, Debug)]
pub struct ServerRow {
    pub id: i64,
    pub name: String,
    pub icon_path: Option<String>,
    pub discord_link: Option<String>,
    pub host: String,
    pub is_wip: i64,
}

/// The latest poll of a server.
#[derive(Clone, Copy, Debug, PartialEq, Eq, Structural)]
pub struct LastPollRow {
    pub server_id: i64,
    pub players: i64,
    pub online: i64,
}

/// The highest player count of a server over the last day.
#[derive(Clone, Copy, Debug, PartialEq, Eq, Structural)]
pub struct PeakRow {
    pub server_id: i64,
    pub peak: Option<i64>,
}

/// The uptime of a server on one day; `P` is the caller's number type.
#[derive(Clone, Debug)]
pub struct DailyRow<P> {
    pub server_id: i64,
    pub day: String,
    pub uptime_percent: P,
}

/// One poll of the last hour.
#[derive(Clone, Copy, Debug, PartialEq, Eq, Structural)]
pub struct SparkRow {
    pub server_id: i64,
    pub t_unix: i64,
    pub players: i64,
}

/// A row of `servers` as the admin pages read it.
#[derive(Clone, Debug)]
pub struct AdminRow {
    pub id: i64,
    pub name: String,
    pub icon_path: Option<String>,
    pub discord_link: Option<String>,
    pub host: String,
    pub category: String,
    pub is_wip: i64,
    pub polled: i64,
    pub created_at: String,
}

/// A value bound to a statement parameter.
#[derive(Clone, Debug)]
pub enum BindValue {
    Text(String),
    Number(i64),
}

// ---------------------------------------------------------------------------
// Specifications
// ---------------------------------------------------------------------------

/// The first of the rows that belongs to server `id`.
pub open spec fn first_poll(rows: Seq<LastPollRow>, id: i64) -> Option<LastPollRow>
    decreases rows.len(),
{
    if rows.len() == 0 {
        None
    } else {
        match first_poll(rows.drop_last(), id) {
            Some(r) => Some(r),
            None => if rows.last().server_id == id {
                Some(rows.last())
            } else {
                None
            },
        }
    }
}

/// The first of the rows that belongs to server `id`.
pub open spec fn first_peak(rows: Seq<PeakRow>, id: i64) -> Option<PeakRow>
    decreases rows.len(),
{
    if rows.len() == 0 {
        None
    } else {
        match first_peak(rows.drop_last(), id) {
            Some(r) => Some(r),
            None => if rows.last().server_id == id {
                Some(rows.last())
            } else {
                None
            },
        }
    }
}

/// The days of server `id`, in the order of the rows.
pub open spec fn daily_for<P>(rows: Seq<DailyRow<P>>, id: i64) -> Seq<DailyUptime<P>>
    decreases rows.len(),
{
    if rows.len() == 0 {
        Seq::empty()
    } else {
        let prev = daily_for(rows.drop_last(), id);
        if rows.last().server_id == id {
            prev.push(DailyUptime { day: rows.last().day, uptime_percent: rows.last().uptime_percent })
        } else {
            prev
        }
    }
}

/// The polls of server `id`, in the order of the rows, with the player count
/// cut to 32 bits.
pub open spec fn sparks_for(rows: Seq<SparkRow>, id: i64) -> Seq<SparkPoint>
    decreases rows.len(),
{
    if rows.len() == 0 {
        Seq::empty()
    } else {
        let prev = sparks_for(rows.drop_last(), id);
        if rows.last().server_id == id {
            prev.push(SparkPoint { t_unix: rows.last().t_unix, players: rows.last().players as i32 })
        } else {
            prev
        }
    }
}

/// A card's status: work in progress when the server is marked so, else
/// online when its latest poll was, else offline.
pub open spec fn card_status(is_wip: i64, last: Option<LastPollRow>) -> Status {
    if is_wip == 1 {
        Status::Wip
    } else if (match last {
        Some(r) => r.online == 1,
        None => false,
    }) {
        Status::Online
    } else {
        Status::Offline
    }
}

/// The text of an optional column, empty when it is null.
pub open spec fn text_or_empty(s: Option<String>) -> Seq<char> {
    match s {
        Some(t) => t@,
        None => Seq::empty(),
    }
}

/// `card` is the card of server `s` given the query results.
pub open spec fn is_card_for<P>(
    card: ServerCardData<P>,
    s: ServerRow,
    polls: Seq<LastPollRow>,
    peaks: Seq<PeakRow>,
    daily: Seq<DailyRow<P>>,
    sparks: Seq<SparkRow>,
) -> bool {
    let last = first_poll(polls, s.id);
    &&& card.id == s.id
    &&& card.name@ == s.name@
    &&& card.icon_path@ == text_or_empty(s.icon_path)
    &&& card.link@ == text_or_empty(s.discord_link)
    &&& card.status == card_status(s.is_wip, last)
    &&& card.current_players == (match last {
        Some(r) => r.players as i32,
        None => 0i32,
    })
    &&& card.peak_24h == (match first_peak(peaks, s.id) {
        Some(p) => match p.peak {
            Some(v) => v as i32,
            None => 0i32,
        },
        None => 0i32,
    })
    &&& card.uptime_14d@ == daily_for(daily, s.id)
    &&& card.sparkline@ == sparks_for(sparks, s.id)
    &&& card.secure == has_prefix(s.host@, "https://"@)
}

// ---------------------------------------------------------------------------
// Executable assembly
// ---------------------------------------------------------------------------

/// The text of an optional column, empty when it is null.
fn string_or_empty(s: &Option<String>) -> (r: String)
    ensures
        r@ == text_or_empty(*s),
{
    match s {
        Some(t) => t.clone(),
        None => String::new(),
    }
}

/// The first poll row of server `id`.
pub fn find_last_poll(rows: &Vec<LastPollRow>, id: i64) -> (r: Option<LastPollRow>)
    ensures
        r == first_poll(rows@, id),
{
    let mut found: Option<LastPollRow> = None;
    let mut i: usize = 0;
    while i < rows.len()
        invariant
            i <= rows.len(),
            found == first_poll(rows@.subrange(0, i as int), id),
        decreases rows.len() - i,
    {
        proof {
            assert(rows@.subrange(0, i + 1).drop_last() =~= rows@.subrange(0, i as int));
        }
        if found.is_none() && rows[i].server_id == id {
            found = Some(rows[i]);
        }
        i = i + 1;
    }
    assert(rows@.subrange(0, rows.len() as int) =~= rows@);
    found
}

/// The first peak row of server `id`.
pub fn find_peak(rows: &Vec<PeakRow>, id: i64) -> (r: Option<PeakRow>)
    ensures
        r == first_peak(rows@, id),
{
    let mut found: Option<PeakRow> = None;
    let mut i: usize = 0;
    while i < rows.len()
        invariant
            i <= rows.len(),
            found == first_peak(rows@.subrange(0, i as int), id),
        decreases rows.len() - i,
    {
        proof {
            assert(rows@.subrange(0, i + 1).drop_last() =~= rows@.subrange(0, i as int));
        }
        if found.is_none() && rows[i].server_id == id {
            found = Some(rows[i]);
        }
        i = i + 1;
    }
    assert(rows@.subrange(0, rows.len() as int) =~= rows@);
    found
}

/// The days of server `id`, in row order.
pub fn uptime_days<P: Copy>(rows: &Vec<DailyRow<P>>, id: i64) -> (r: Vec<DailyUptime<P>>)
    ensures
        r@ == daily_for(rows@, id),
{
    let mut out: Vec<DailyUptime<P>> = Vec::new();
    let mut i: usize = 0;
    while i < rows.len()
        invariant
            i <= rows.len(),
            out@ == daily_for(rows@.subrange(0, i as int), id),
        decreases rows.len() - i,
    {
        proof {
            assert(rows@.subrange(0, i + 1).drop_last() =~= rows@.subrange(0, i as int));
        }
        if rows[i].server_id == id {
            out.push(DailyUptime { day: rows[i].day.clone(), uptime_percent: rows[i].uptime_percent });
        }
        i = i + 1;
    }
    assert(rows@.subrange(0, rows.len() as int) =~= rows@);
    out
}

/// The sparkline points of server `id`, in row order.
pub fn sparkline_for(rows: &Vec<SparkRow>, id: i64) -> (r: Vec<SparkPoint>)
    ensures
        r@ == sparks_for(rows@, id),
{
    let mut out: Vec<SparkPoint> = Vec::new();
    let mut i: usize = 0;
    while i < rows.len()
        invariant
            i <= rows.len(),
            out@ == sparks_for(rows@.subrange(0, i as int), id),
        decreases rows.len() - i,
    {
        proof {
            assert(rows@.subrange(0, i + 1).drop_last() =~= rows@.subrange(0, i as int));
        }
        if rows[i].server_id == id {
            out.push(SparkPoint { t_unix: rows[i].t_unix, players: rows[i].players as i32 });
        }
        i = i + 1;
    }
    assert(rows@.subrange(0, rows.len() as int) =~= rows@);
    out
}

/// The card of one server, from the rows of the five queries.
pub fn build_card<P: Copy>(
    s: &ServerRow,
    polls: &Vec<LastPollRow>,
    peaks: &Vec<PeakRow>,
    daily: &Vec<DailyRow<P>>,
    sparks: &Vec<SparkRow>,
) -> (card: ServerCardData<P>)
    ensures
        is_card_for(card, *s, polls@, peaks@, daily@, sparks@),
{
    let last = find_last_poll(polls, s.id);
    let peak: i32 = match find_peak(peaks, s.id) {
        Some(p) => match p.peak {
            Some(v) => v as i32,
            None => 0,
        },
        None => 0,
    };
    let online = match last {
        Some(r) => r.online == 1,
        None => false,
    };
    let status = if s.is_wip == 1 {
        Status::Wip
    } else if online {
        Status::Online
    } else {
        Status::Offline
    };
    let current: i32 = match last {
        Some(r) => r.players as i32,
        None => 0,
    };
    let host = crate::text::chars_of(s.host.as_str());
    let secure = crate::text::starts_with_str(&host, "https://");
    ServerCardData {
        id: s.id,
        name: s.name.clone(),
        icon_path: string_or_empty(&s.icon_path),
        link: string_or_empty(&s.discord_link),
        status,
        current_players: current,
        peak_24h: peak,
        uptime_14d: uptime_days(daily, s.id),
        sparkline: sparkline_for(sparks, s.id),
        secure,
    }
}

/// The cards of a category listing, one per server row and in the same
/// order, put together from the latest polls, the day peaks, the daily
/// uptimes and the last hour's polls.
pub fn assemble_cards<P: Copy>(
    servers: &Vec<ServerRow>,
    polls: &Vec<LastPollRow>,
    peaks: &Vec<PeakRow>,
    daily: &Vec<DailyRow<P>>,
    sparks: &Vec<SparkRow>,
) -> (cards: Vec<ServerCardData<P>>)
    ensures
        cards.len() == servers.len(),
        forall|i: int|
            0 <= i < servers.len() ==> is_card_for(
                #[trigger] cards@[i],
                servers@[i],
                polls@,
                peaks@,
                daily@,
                sparks@,
            ),
{
    let mut out: Vec<ServerCardData<P>> = Vec::new();
    let mut i: usize = 0;
    while i < servers.len()
        invariant
            i <= servers.len(),
            out.len() == i,
            forall|j: int|
                0 <= j < i ==> is_card_for(
                    #[trigger] out@[j],
                    servers@[j],
                    polls@,
                    peaks@,
                    daily@,
                    sparks@,
                ),
        decreases servers.len() - i,
    {
        let card = build_card(&servers[i], polls, peaks, daily, sparks);
        out.push(card);
        i = i + 1;
    }
    out
}

/// Law: a card shows "work in progress" exactly when its server is marked
/// so, and "online" exactly when it is not and its latest poll succeeded.
pub proof fn law_card_status(is_wip: i64, last: Option<LastPollRow>)
    ensures
        (card_status(is_wip, last) == Status::Wip) <==> is_wip == 1,
        (card_status(is_wip, last) == Status::Online) <==> (is_wip != 1 && last is Some
            && last->0.online == 1),
{
}

// ---------------------------------------------------------------------------
// Admin rows and statement values
// ---------------------------------------------------------------------------

/// An admin row as the admin pages show it: null texts become empty, the
/// category is read from its column, and the flags are set exactly when
/// their column is `1`.
pub fn admin_row_to_type(r: &AdminRow) -> (a: AdminServerRow)
    ensures
        a.id == r.id,
        a.name@ == r.name@,
        a.icon_path@ == text_or_empty(r.icon_path),
        a.discord_link@ == text_or_empty(r.discord_link),
        a.host@ == r.host@,
        a.category == Category::from_db_text(r.category@),
        a.is_wip == (r.is_wip == 1),
        a.polled == (r.polled == 1),
        a.created_at@ == r.created_at@,
{
    AdminServerRow {
        id: r.id,
        name: r.name.clone(),
        icon_path: string_or_empty(&r.icon_path),
        discord_link: string_or_empty(&r.discord_link),
        host: r.host.clone(),
        category: Category::from_db_str(r.category.as_str()),
        is_wip: r.is_wip == 1,
        polled: r.polled == 1,
        created_at: r.created_at.clone(),
    }
}

/// `a` is the admin view of row `r`.
pub open spec fn is_admin_view(a: AdminServerRow, r: AdminRow) -> bool {
    &&& a.id == r.id
    &&& a.name@ == r.name@
    &&& a.icon_path@ == text_or_empty(r.icon_path)
    &&& a.discord_link@ == text_or_empty(r.discord_link)
    &&& a.host@ == r.host@
    &&& a.category == Category::from_db_text(r.category@)
    &&& a.is_wip == (r.is_wip == 1)
    &&& a.polled == (r.polled == 1)
    &&& a.created_at@ == r.created_at@
}

/// The admin views of all rows, in order.
pub fn admin_rows(rows: &Vec<AdminRow>) -> (r: Vec<AdminServerRow>)
    ensures
        r.len() == rows.len(),
        forall|i: int| 0 <= i < rows.len() ==> is_admin_view(#[trigger] r@[i], rows@[i]),
{
    let mut out: Vec<AdminServerRow> = Vec::new();
    let mut i: usize = 0;
    while i < rows.len()
        invariant
            i <= rows.len(),
            out.len() == i,
            forall|j: int| 0 <= j < i ==> is_admin_view(#[trigger] out@[j], rows@[j]),
        decreases rows.len() - i,
    {
        out.push(admin_row_to_type(&rows[i]));
        i = i + 1;
    }
    out
}

/// The admin view of the first row, if there is one.
pub fn first_admin_row(rows: &Vec<AdminRow>) -> (r: Option<AdminServerRow>)
    ensures
        match r {
            Some(a) => rows.len() > 0 && is_admin_view(a, rows@[0]),
            None => rows.len() == 0,
        },
{
    if rows.len() == 0 {
        None
    } else {
        Some(admin_row_to_type(&rows[0]))
    }
}

/// The number bound for a flag: 1 when set, 0 when not.
pub fn bool_bind(b: bool) -> (v: BindValue)
    ensures
        v matches BindValue::Number(n) && n == (if b {
            1i64
        } else {
            0i64
        }),
{
    if b {
        BindValue::Number(1)
    } else {
        BindValue::Number(0)
    }
}

/// The seven values bound to an insert or update of a server, in the order
/// name, icon path, Discord link, host, category, WIP flag, polled flag;
/// absent optional texts are bound as empty texts.
pub open spec fn is_input_binds(b: Seq<BindValue>, input: ServerInput) -> bool {
    &&& b.len() == 7
    &&& b[0] matches BindValue::Text(t) && t@ == input.name@
    &&& b[1] matches BindValue::Text(t) && t@ == text_or_empty(input.icon_path)
    &&& b[2] matches BindValue::Text(t) && t@ == text_or_empty(input.discord_link)
    &&& b[3] matches BindValue::Text(t) && t@ == input.host@
    &&& b[4] matches BindValue::Text(t) && t@ == input.category.db_text()
    &&& b[5] matches BindValue::Number(n) && n == (if input.is_wip {
        1i64
    } else {
        0i64
    })
    &&& b[6] matches BindValue::Number(n) && n == (if input.polled {
        1i64
    } else {
        0i64
    })
}

/// The values bound to an insert of a server.
pub fn server_input_binds(input: &ServerInput) -> (b: Vec<BindValue>)
    ensures
        is_input_binds(b@, *input),
{
    let mut b: Vec<BindValue> = Vec::new();
    b.push(BindValue::Text(input.name.clone()));
    b.push(BindValue::Text(string_or_empty(&input.icon_path)));
    b.push(BindValue::Text(string_or_empty(&input.discord_link)));
    b.push(BindValue::Text(input.host.clone()));
    b.push(BindValue::Text(crate::text::owned(input.category.as_db_str())));
    b.push(bool_bind(input.is_wip));
    b.push(bool_bind(input.polled));
    b
}

/// The values bound to an update of server `id`: those of an insert, then the id.
pub fn update_binds(id: i64, input: &ServerInput) -> (b: Vec<BindValue>)
    ensures
        b.len() == 8,
        is_input_binds(b@.subrange(0, 7), *input),
        b@[7] matches BindValue::Number(n) && n == id,
{
    let mut b = server_input_binds(input);
    let ghost first = b@;
    b.push(BindValue::Number(id));
    assert(b@.subrange(0, 7) =~= first);
    b
}

// ---------------------------------------------------------------------------
// Laws
// ---------------------------------------------------------------------------

/// The row belongs to server `id`.
pub open spec fn daily_row_of<P>(id: i64) -> spec_fn(DailyRow<P>) -> bool {
    |r: DailyRow<P>| r.server_id == id
}

/// The day a daily row records.
pub open spec fn day_of<P>(r: DailyRow<P>) -> DailyUptime<P> {
    DailyUptime { day: r.day, uptime_percent: r.uptime_percent }
}

/// Law (a card's uptime days): the days of server `id` are exactly its rows,
/// all of them and in their order, each as its day and uptime: as many days
/// as the server has rows, the `k`-th day from its `k`-th row.
pub proof fn law_daily_rows_of_server<P>(rows: Seq<DailyRow<P>>, id: i64)
    ensures
        daily_for(rows, id) == rows.filter(daily_row_of(id)).map_values(|r: DailyRow<P>| day_of(r)),
    decreases rows.len(),
{
    reveal(Seq::filter);
    if rows.len() > 0 {
        law_daily_rows_of_server(rows.drop_last(), id);
    }
    assert(daily_for(rows, id) =~= rows.filter(daily_row_of(id)).map_values(
        |r: DailyRow<P>| day_of(r),
    ));
}

/// The poll belongs to server `id`.
pub open spec fn spark_row_of(id: i64) -> spec_fn(SparkRow) -> bool {
    |r: SparkRow| r.server_id == id
}

/// Law (a card's sparkline): the points of server `id` are exactly its polls,
/// all of them and in their order, each as its time and its player count cut
/// to 32 bits.
pub proof fn law_spark_rows_of_server(rows: Seq<SparkRow>, id: i64)
    ensures
        sparks_for(rows, id) == rows.filter(spark_row_of(id)).map_values(
            |r: SparkRow| SparkPoint { t_unix: r.t_unix, players: r.players as i32 },
        ),
    decreases rows.len(),
{
    reveal(Seq::filter);
    if rows.len() > 0 {
        law_spark_rows_of_server(rows.drop_last(), id);
    }
    assert(sparks_for(rows, id) =~= rows.filter(spark_row_of(id)).map_values(
        |r: SparkRow| SparkPoint { t_unix: r.t_unix, players: r.players as i32 },
    ));
}

/// Law (a card's latest poll): the poll used for server `id` is the first
/// row of that server, and there is none exactly when no row is the
/// server's.
pub proof fn law_first_poll_of_server(rows: Seq<LastPollRow>, id: i64)
    ensures
        first_poll(rows, id) matches Some(r) ==> exists|k: int|
            0 <= k < rows.len() && #[trigger] rows[k] == r && r.server_id == id && forall|j: int|
                0 <= j < k ==> (#[trigger] rows[j]).server_id != id,
        first_poll(rows, id) is None ==> forall|j: int|
            0 <= j < rows.len() ==> (#[trigger] rows[j]).server_id != id,
    decreases rows.len(),
{
    if rows.len() > 0 {
        let init = rows.drop_last();
        law_first_poll_of_server(init, id);
        assert forall|j: int| 0 <= j < init.len() implies init[j] == rows[j] by {}
        match first_poll(init, id) {
            Some(r) => {
                let k = choose|k: int|
                    0 <= k < init.len() && #[trigger] init[k] == r && r.server_id == id && forall|
                        j: int,
                    | 0 <= j < k ==> (#[trigger] init[j]).server_id != id;
                assert(rows[k] == init[k]);
                assert forall|j: int| 0 <= j < k implies (#[trigger] rows[j]).server_id != id by {
                    assert(rows[j] == init[j]);
                }
            },
            None => {
                assert(rows[rows.len() - 1] == rows.last());
                assert forall|j: int| 0 <= j < rows.len() - 1 implies (
                #[trigger] rows[j]).server_id != id by {
                    assert(rows[j] == init[j]);
                }
            },
        }
    }
}

/// Law (a card's peak): the peak row used for server `id` is the first row
/// of that server, and there is none exactly when no row is the server's.
pub proof fn law_first_peak_of_server(rows: Seq<PeakRow>, id: i64)
    ensures
        first_peak(rows, id) matches Some(r) ==> exists|k: int|
            0 <= k < rows.len() && #[trigger] rows[k] == r && r.server_id == id && forall|j: int|
                0 <= j < k ==> (#[trigger] rows[j]).server_id != id,
        first_peak(rows, id) is None ==> forall|j: int|
            0 <= j < rows.len() ==> (#[trigger] rows[j]).server_id != id,
    decreases rows.len(),
{
    if rows.len() > 0 {
        let init = rows.drop_last();
        law_first_peak_of_server(init, id);
        assert forall|j: int| 0 <= j < init.len() implies init[j] == rows[j] by {}
        match first_peak(init, id) {
            Some(r) => {
                let k = choose|k: int|
                    0 <= k < init.len() && #[trigger] init[k] == r && r.server_id == id && forall|
                        j: int,
                    | 0 <= j < k ==> (#[trigger] init[j]).server_id != id;
                assert(rows[k] == init[k]);
                assert forall|j: int| 0 <= j < k implies (#[trigger] rows[j]).server_id != id by {
                    assert(rows[j] == init[j]);
                }
            },
            None => {
                assert(rows[rows.len() - 1] == rows.last());
                assert forall|j: int| 0 <= j < rows.len() - 1 implies (
                #[trigger] rows[j]).server_id != id by {
                    assert(rows[j] == init[j]);
                }
            },
        }
    }
}

/// Law (the stored flags): the values bound for a server store its WIP and
/// polled flags as 1 when set and 0 when not; a paused server is stored with
/// `polled` 0.
pub proof fn law_stored_flags(b: Seq<BindValue>, input: ServerInput)
    requires
        is_input_binds(b, input),
    ensures
        input.polled ==> b[6] == BindValue::Number(1),
        !input.polled ==> b[6] == BindValue::Number(0),
        input.is_wip ==> b[5] == BindValue::Number(1),
        !input.is_wip ==> b[5] == BindValue::Number(0),
{
}

/// The row holds, column by column, the values bound for a server.
pub open spec fn row_holds(row: AdminRow, b: Seq<BindValue>) -> bool {
    &&& b.len() == 7
    &&& b[0] matches BindValue::Text(t) && row.name@ == t@
    &&& b[1] matches BindValue::Text(t) && text_or_empty(row.icon_path) == t@
    &&& b[2] matches BindValue::Text(t) && text_or_empty(row.discord_link) == t@
    &&& b[3] matches BindValue::Text(t) && row.host@ == t@
    &&& b[4] matches BindValue::Text(t) && row.category@ == t@
    &&& b[5] matches BindValue::Number(n) && row.is_wip == n
    &&& b[6] matches BindValue::Number(n) && row.polled == n
}

/// Law (what is stored reads back): a row that holds the values bound for a
/// server shows, on the admin pages, that server's name, host, icon path,
/// Discord link, category, WIP flag and polled flag.
pub proof fn law_stored_server_reads_back(
    input: ServerInput,
    b: Seq<BindValue>,
    row: AdminRow,
    a: AdminServerRow,
)
    requires
        is_input_binds(b, input),
        row_holds(row, b),
        is_admin_view(a, row),
    ensures
        a.name@ == input.name@,
        a.host@ == input.host@,
        a.icon_path@ == text_or_empty(input.icon_path),
        a.discord_link@ == text_or_empty(input.discord_link),
        a.category == input.category,
        a.is_wip == input.is_wip,
        a.polled == input.polled,
{
    crate::types::law_category_db_roundtrip(input.category);
}

} // verus!
