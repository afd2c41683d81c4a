//! The bookkeeping of the per-minute poll: which servers are asked, what an
//! answer is recorded as, and the statement that stores one round of polls.
use vstd::prelude::*;

use crate::db::BindValue;
use crate::text::{decimal, parse_i64, trim};

verus! {

/// How long one poll may take, in milliseconds.
pub const TIMEOUT_MS: u32 = 10_000;

/// What the poll of one server is stored as.
#[derive(Clone, Copy, Debug, PartialEq, Eq, Structural)]
pub struct PollRecord {
    pub server_id: i64,
    /// 1 when the server answered `200`, else 0.
    pub online: i64,
    pub players: i64,
}

/// What came of asking a server for its player count.
#[derive(Clone, Debug)]
pub enum PollObservation {
    /// The server has no endpoint; it was not asked.
    NoHost,
    /// No answer: the request could not be built, failed, or timed out.
    Unreachable,
    /// An answer with a status other than `200`; its body was not read.
    Status(u16),
    /// A `200` answer whose body could not be read.
    BodyUnreadable,
    /// The body of a `200` answer.
    Body(String),
}

/// A server as the poll finds it stored: its id, its endpoint, and its
/// `polled` and `is_wip` flags (1 for set).
#[derive(Clone, Debug)]
pub struct PollTarget {
    pub id: i64,
    pub host: String,
    pub polled: i64,
    pub is_wip: i64,
}

/// A server is polled when it is marked for polling and is no work in
/// progress: work-in-progress servers are never polled.
pub open spec fn is_polled(t: PollTarget) -> bool {
    t.polled == 1 && t.is_wip != 1
}

/// The servers of `rows` that are polled, in their order.
pub open spec fn polled_targets(rows: Seq<PollTarget>) -> Seq<PollTarget>
    decreases rows.len(),
{
    if rows.len() == 0 {
        Seq::empty()
    } else {
        let before = polled_targets(rows.drop_last());
        if is_polled(rows.last()) {
            before.push(rows.last())
        } else {
            before
        }
    }
}

/// Whether one stored server is polled.
pub fn should_poll(t: &PollTarget) -> (b: bool)
    ensures
        b == is_polled(*t),
{
    t.polled == 1 && t.is_wip != 1
}

/// The servers of one round: those of `rows` that are polled, in order.
pub fn servers_to_poll(rows: &Vec<PollTarget>) -> (r: Vec<PollTarget>)
    ensures
        r@ == polled_targets(rows@),
{
    let mut r: Vec<PollTarget> = Vec::new();
    let mut i: usize = 0;
    while i < rows.len()
        invariant
            i <= rows.len(),
            r@ == polled_targets(rows@.subrange(0, i as int)),
        decreases rows.len() - i,
    {
        proof {
            assert(rows@.subrange(0, i + 1).drop_last() =~= rows@.subrange(0, i as int));
        }
        if should_poll(&rows[i]) {
            let t = PollTarget {
                id: rows[i].id,
                host: rows[i].host.clone(),
                polled: rows[i].polled,
                is_wip: rows[i].is_wip,
            };
            r.push(t);
        }
        i = i + 1;
    }
    assert(rows@.subrange(0, rows.len() as int) =~= rows@);
    r
}

/// Every server that `polled_targets` keeps is polled and comes from `rows`.
pub proof fn lemma_polled_targets(rows: Seq<PollTarget>)
    ensures
        forall|k: int| 0 <= k < polled_targets(rows).len() ==> is_polled(
            #[trigger] polled_targets(rows)[k],
        ) && rows.contains(polled_targets(rows)[k]),
        forall|k: int| 0 <= k < rows.len() && is_polled(#[trigger] rows[k]) ==> polled_targets(
            rows,
        ).contains(rows[k]),
    decreases rows.len(),
{
    if rows.len() > 0 {
        let init = rows.drop_last();
        lemma_polled_targets(init);
        let p = polled_targets(rows);
        let q = polled_targets(init);
        assert forall|k: int| 0 <= k < p.len() implies is_polled(#[trigger] p[k]) && rows.contains(
            p[k],
        ) by {
            if k < q.len() {
                assert(p[k] == q[k]);
                let j = choose|j: int| 0 <= j < init.len() && init[j] == q[k];
                assert(rows[j] == init[j]);
            } else {
                assert(rows[rows.len() - 1] == rows.last());
            }
        }
        assert forall|k: int| 0 <= k < rows.len() && is_polled(#[trigger] rows[k]) implies p.contains(
            rows[k],
        ) by {
            if k < rows.len() - 1 {
                assert(init[k] == rows[k]);
                assert(q.contains(init[k]));
                let j = choose|j: int| 0 <= j < q.len() && q[j] == init[k];
                assert(p[j] == q[j]);
            } else {
                assert(p[p.len() - 1] == rows.last());
            }
        }
    }
}

/// Law (the README's rule for work-in-progress servers): a round polls
/// every server marked for polling that is no work in progress, and no
/// other: no work-in-progress server and no server with polling switched off.
pub proof fn law_wip_servers_are_not_polled(rows: Seq<PollTarget>)
    ensures
        forall|t: PollTarget| #[trigger] polled_targets(rows).contains(t) ==> rows.contains(t)
            && t.polled == 1 && t.is_wip != 1,
        forall|t: PollTarget| rows.contains(t) && t.polled == 1 && t.is_wip != 1 ==> #[trigger] polled_targets(
            rows,
        ).contains(t),
{
    lemma_polled_targets(rows);
    assert forall|t: PollTarget| #[trigger] polled_targets(rows).contains(t) implies rows.contains(t)
        && t.polled == 1 && t.is_wip != 1 by {
        let k = choose|k: int| 0 <= k < polled_targets(rows).len() && polled_targets(rows)[k] == t;
        assert(is_polled(polled_targets(rows)[k]));
    }
    assert forall|t: PollTarget| rows.contains(t) && t.polled == 1 && t.is_wip != 1 implies #[trigger] polled_targets(
        rows,
    ).contains(t) by {
        let k = choose|k: int| 0 <= k < rows.len() && rows[k] == t;
        assert(is_polled(rows[k]));
    }
}

/// The player count in an answer body: the trimmed body read as an `i64`,
/// or 0 when it is no such number.
pub open spec fn players_in(body: Seq<char>) -> i64 {
    match parse_i64(trim(body)) {
        Some(n) => n,
        None => 0,
    }
}

/// The record of an observation: online with the reported count for a body
/// of a `200` answer, offline with no players for anything else.
pub open spec fn record_of(id: i64, obs: PollObservation) -> PollRecord {
    match obs {
        PollObservation::Body(b) => PollRecord { server_id: id, online: 1, players: players_in(b@) },
        _ => PollRecord { server_id: id, online: 0, players: 0 },
    }
}

/// Whether a server with this endpoint is asked at all.
pub fn is_pollable(host: &str) -> (b: bool)
    ensures
        b == (host@.len() > 0),
{
    !host.is_empty()
}

/// Whether an answer's body is read: only for status `200`.
pub fn is_ok_status(status: u16) -> (b: bool)
    ensures
        b == (status == 200),
{
    status == 200
}

/// The player count in an answer body.
pub fn player_count(body: &str) -> (n: i64)
    ensures
        n == players_in(body@),
{
    let t = crate::text::trim_chars(&crate::text::chars_of(body));
    match crate::text::parse_i64_chars(&t) {
        Some(n) => n,
        None => 0,
    }
}

/// What the poll of server `id` is stored as.
pub fn poll_record(id: i64, obs: &PollObservation) -> (r: PollRecord)
    ensures
        r == record_of(id, *obs),
{
    match obs {
        PollObservation::Body(b) => PollRecord {
            server_id: id,
            online: 1,
            players: player_count(b.as_str()),
        },
        _ => PollRecord { server_id: id, online: 0, players: 0 },
    }
}

/// Law (the poller's outcome table): only a `200` answer marks a server
/// online; a body that is no number counts no players; no answer, another
/// status or an unreadable body mark it offline with no players.
pub proof fn law_poll_outcomes(id: i64, obs: PollObservation)
    ensures
        record_of(id, obs).server_id == id,
        (record_of(id, obs).online == 1) <==> obs is Body,
        !(obs is Body) ==> record_of(id, obs).players == 0,
        obs matches PollObservation::Body(b) ==> (parse_i64(trim(b@)) is None ==> record_of(
            id,
            obs,
        ).players == 0),
{
}

/// Law (the player count of an answer): a `200` body that, trimmed, reads as
/// a number is recorded with that many players, and any other body with
/// none.
pub proof fn law_players_of_body(id: i64, body: String)
    ensures
        parse_i64(trim(body@)) matches Some(n) ==> record_of(id, PollObservation::Body(body))
            == (PollRecord { server_id: id, online: 1, players: n }),
        (parse_i64(trim(body@)) is None) ==> record_of(id, PollObservation::Body(body))
            == (PollRecord { server_id: id, online: 1, players: 0 }),
{
}

// ---------------------------------------------------------------------------
// The insert statement
// ---------------------------------------------------------------------------

/// The placeholders of the `i`-th row: `(?3i+1, ?3i+2, ?3i+3)`.
pub open spec fn placeholder_group(i: nat) -> Seq<char> {
    seq!['(', '?'] + decimal(3 * i + 1) + seq![',', ' ', '?'] + decimal(3 * i + 2) + seq![
        ',',
        ' ',
        '?',
    ] + decimal(3 * i + 3) + seq![')']
}

/// The placeholders of `n` rows, separated by commas.
pub open spec fn placeholder_list(n: nat) -> Seq<char>
    decreases n,
{
    if n == 0 {
        Seq::empty()
    } else if n == 1 {
        placeholder_group(0)
    } else {
        placeholder_list((n - 1) as nat) + seq![','] + placeholder_group((n - 1) as nat)
    }
}

/// The statement that stores `n` polls.
pub open spec fn poll_insert_sql(n: nat) -> Seq<char> {
    "INSERT INTO server_polls (server_id, online, players) VALUES "@ + placeholder_list(n)
}

/// `b` holds, from index `3 * k` on, the id, online flag and players of `r`.
pub open spec fn binds_row(b: Seq<BindValue>, k: int, r: PollRecord) -> bool {
    &&& b[3 * k] == BindValue::Number(r.server_id)
    &&& b[3 * k + 1] == BindValue::Number(r.online)
    &&& b[3 * k + 2] == BindValue::Number(r.players)
}

/// The values bound to the statement: id, online flag and players of each
/// poll, in order.
pub open spec fn is_poll_binds(b: Seq<BindValue>, records: Seq<PollRecord>) -> bool {
    &&& b.len() == 3 * records.len()
    &&& forall|i: int| 0 <= i < records.len() ==> binds_row(b, i, #[trigger] records[i])
}

/// The statement that stores one round of polls, and the values bound to it.
pub fn poll_insert(records: &Vec<PollRecord>) -> (r: (String, Vec<BindValue>))
    requires
        records.len() > 0,
        3 * records.len() + 3 <= u64::MAX,
    ensures
        r.0@ == poll_insert_sql(records.len() as nat),
        is_poll_binds(r.1@, records@),
{
    let mut sql = crate::text::chars_of("INSERT INTO server_polls (server_id, online, players) VALUES ");
    let ghost head = sql@;
    let mut binds: Vec<BindValue> = Vec::new();
    let open = crate::text::chars_of("(?");
    let sep = crate::text::chars_of(", ?");
    proof {
        reveal_strlit("(?");
        reveal_strlit(", ?");
        assert(open@ =~= seq!['(', '?']);
        assert(sep@ =~= seq![',', ' ', '?']);
        assert(head =~= head + placeholder_list(0));
    }
    let n = records.len();
    let mut i: usize = 0;
    while i < n
        invariant
            i <= n == records.len(),
            3 * n + 3 <= u64::MAX,
            sql@ == head + placeholder_list(i as nat),
            open@ == seq!['(', '?'],
            sep@ == seq![',', ' ', '?'],
            binds@.len() == 3 * i,
            forall|k: int| 0 <= k < i ==> binds_row(binds@, k, #[trigger] records@[k]),
        decreases n - i,
    {
        let ghost before = sql@;
        if i > 0 {
            sql.push(',');
        }
        let base: u64 = 3 * (i as u64);
        crate::text::push_all(&mut sql, &open);
        crate::text::push_all(&mut sql, &crate::text::decimal_chars(base + 1));
        crate::text::push_all(&mut sql, &sep);
        crate::text::push_all(&mut sql, &crate::text::decimal_chars(base + 2));
        crate::text::push_all(&mut sql, &sep);
        crate::text::push_all(&mut sql, &crate::text::decimal_chars(base + 3));
        sql.push(')');
        proof {
            let g = placeholder_group(i as nat);
            if i == 0 {
                assert(sql@ =~= before + g);
                assert(placeholder_list(1) == g);
            } else {
                assert(sql@ =~= before + seq![','] + g);
                assert(placeholder_list((i + 1) as nat) == placeholder_list(i as nat) + seq![',']
                    + g);
            }
            assert(sql@ =~= head + placeholder_list((i + 1) as nat));
        }
        let ghost old_binds = binds@;
        binds.push(BindValue::Number(records[i].server_id));
        binds.push(BindValue::Number(records[i].online));
        binds.push(BindValue::Number(records[i].players));
        proof {
            assert forall|k: int| 0 <= k < i + 1 implies binds_row(
                binds@,
                k,
                #[trigger] records@[k],
            ) by {
                if k < i {
                    assert(binds_row(old_binds, k, records@[k]));
                    assert(binds@[3 * k] == old_binds[3 * k]);
                    assert(binds@[3 * k + 1] == old_binds[3 * k + 1]);
                    assert(binds@[3 * k + 2] == old_binds[3 * k + 2]);
                } else {
                    assert(binds@[3 * k] == BindValue::Number(records@[k].server_id));
                }
            }
        }
        i = i + 1;
    }
    (crate::text::string_from_chars(&sql), binds)
}

} // verus!
