//! The data that the site shows and the admin API edits.
use vstd::prelude::*;

verus! {

/// Which listing a server belongs to.
#[derive(Clone, Copy, Debug, PartialEq, Eq, Structural)]
pub enum Category {
    Pserver,
    RealmLike,
}

impl Category {
    /// The text that stands for the category in the `servers.category` column
    /// and in the client's tab names.
    pub open spec fn db_text(self) -> Seq<char> {
        match self {
            Category::Pserver => "pserver"@,
            Category::RealmLike => "realm-like"@,
        }
    }

    /// The category read back from a `servers.category` value: `realm-like`
    /// is a Realm-Like, anything else a private server.
    pub open spec fn from_db_text(s: Seq<char>) -> Category {
        if s == "realm-like"@ {
            Category::RealmLike
        } else {
            Category::Pserver
        }
    }

    /// The database text of this category.
    pub fn as_db_str(self) -> (s: &'static str)
        ensures
            s@ == self.db_text(),
    {
        match self {
            Category::Pserver => "pserver",
            Category::RealmLike => "realm-like",
        }
    }

    /// Reads a `servers.category` value.
    pub fn from_db_str(s: &str) -> (c: Category)
        ensures
            c == Category::from_db_text(s@),
    {
        let v = crate::text::chars_of(s);
        if crate::text::equals_str(&v, "realm-like") {
            Category::RealmLike
        } else {
            Category::Pserver
        }
    }
}

/// What a card shows as a server's state.
#[derive(Clone, Copy, Debug, PartialEq, Eq, Structural)]
pub enum Status {
    Online,
    Offline,
    Wip,
}

/// One poll of a server: when it was taken and how many players it reported.
#[derive(Clone, Copy, Debug, PartialEq, Eq, Structural)]
pub struct SparkPoint {
    pub t_unix: i64,
    pub players: i32,
}

/// The uptime of one UTC day (`YYYY-MM-DD`). The library only carries the
/// percentage along; `P` is whatever number type the caller stores it in.
#[derive(Clone, Debug)]
pub struct DailyUptime<P> {
    pub day: String,
    pub uptime_percent: P,
}

/// Everything one server card shows.
#[derive(Clone, Debug)]
pub struct ServerCardData<P> {
    pub id: i64,
    pub name: String,
    pub icon_path: String,
    /// Discord invite or homepage URL.
    pub link: String,
    pub status: Status,
    pub current_players: i32,
    pub peak_24h: i32,
    /// Newest day first; up to 14 entries.
    pub uptime_14d: Vec<DailyUptime<P>>,
    /// The polls of the last hour, oldest first.
    pub sparkline: Vec<SparkPoint>,
    /// Whether the server's player-count endpoint is reached over HTTPS.
    pub secure: bool,
}

/// A server as the admin pages list and edit it.
#[derive(Clone, Debug)]
pub struct AdminServerRow {
    pub id: i64,
    pub name: String,
    pub icon_path: String,
    pub discord_link: String,
    pub host: String,
    pub category: Category,
    pub is_wip: bool,
    pub polled: bool,
    pub created_at: String,
}

/// A server as the admin API receives it for creation or update.
#[derive(Clone, Debug)]
pub struct ServerInput {
    pub name: String,
    pub host: String,
    pub category: Category,
    pub icon_path: Option<String>,
    pub discord_link: Option<String>,
    pub is_wip: bool,
    pub polled: bool,
}

/// The value `polled` takes when an admin request leaves it out.
pub fn default_true() -> (b: bool)
    ensures
        b,
{
    true
}

/// Law: reading back the database text of a category gives the category.
pub proof fn law_category_db_roundtrip(c: Category)
    ensures
        Category::from_db_text(c.db_text()) == c,
{
    reveal_strlit("pserver");
    reveal_strlit("realm-like");
    assert("pserver"@.len() != "realm-like"@.len());
}

} // verus!
