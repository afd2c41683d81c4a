//! The texts that a server card shows, decided from the card's data.
use vstd::prelude::*;

use crate::text::{decimal, parse_i64};
use crate::types::{DailyUptime, ServerCardData, Status};

verus! {

/// `p` occurs somewhere in `s`.
pub open spec fn contains(s: Seq<char>, p: Seq<char>) -> bool {
    exists|i: int| 0 <= i && i + p.len() <= s.len() && #[trigger] s.subrange(i, i + p.len()) == p
}

/// The decimal notation of an integer, with `-` before negative ones.
pub open spec fn int_text(n: int) -> Seq<char> {
    if n < 0 {
        seq!['-'] + decimal((0 - n) as nat)
    } else {
        decimal(n as nat)
    }
}

/// The CSS class of a status.
pub open spec fn status_class_text(s: Status) -> Seq<char> {
    match s {
        Status::Online => "online"@,
        Status::Offline => "offline"@,
        Status::Wip => "wip"@,
    }
}

/// The label of a status.
pub open spec fn status_label_text(s: Status) -> Seq<char> {
    match s {
        Status::Online => "Online"@,
        Status::Offline => "Offline"@,
        Status::Wip => "WIP"@,
    }
}

/// The text of a card's link: a Discord invite is joined, any other link visited.
pub open spec fn link_label_text(link: Seq<char>) -> Seq<char> {
    if contains(link, "discord"@) {
        "Join Discord"@
    } else {
        "Visit Homepage"@
    }
}

/// A player number as a card shows it: `-` for a server in progress.
pub open spec fn count_text(wip: bool, n: i32) -> Seq<char> {
    if wip {
        "-"@
    } else {
        int_text(n as int)
    }
}

/// The texts of a card.
#[derive(Clone, Debug)]
pub struct CardLabels {
    pub status_class: String,
    pub status_text: String,
    pub link_text: String,
    pub players: String,
    pub peak: String,
    /// Whether the sparkline and uptime grids are shown (not for WIP servers).
    pub show_details: bool,
}

/// Whether `p` occurs in `s`.
pub fn contains_chars(s: &Vec<char>, p: &Vec<char>) -> (b: bool)
    ensures
        b == contains(s@, p@),
{
    if p.len() > s.len() {
        return false;
    }
    let mut i: usize = 0;
    while i <= s.len() - p.len()
        invariant
            p.len() <= s.len(),
            i <= s.len() - p.len() + 1,
            forall|k: int| 0 <= k < i ==> #[trigger] s@.subrange(k, k + p.len()) != p@,
        decreases s.len() - i,
    {
        let mut j: usize = 0;
        let mut same = true;
        while j < p.len()
            invariant
                i + p.len() <= s.len(),
                j <= p.len(),
                same <==> forall|m: int| 0 <= m < j ==> s@[i + m] == p@[m],
            decreases p.len() - j,
        {
            if s[i + j] != p[j] {
                same = false;
            }
            j = j + 1;
        }
        if same {
            assert(s@.subrange(i as int, i + p.len()) =~= p@);
            return true;
        }
        assert(s@.subrange(i as int, i + p.len()) != p@) by {
            let m = choose|m: int| 0 <= m < p.len() && s@[i + m] != p@[m];
            assert(s@.subrange(i as int, i + p.len())[m] == s@[i + m]);
        }
        i = i + 1;
    }
    assert forall|k: int| 0 <= k && k + p@.len() <= s@.len() implies #[trigger] s@.subrange(
        k,
        k + p@.len(),
    ) != p@ by {
        assert(k < i);
    }
    false
}

/// The decimal notation of an integer, as `to_string` gives it.
pub fn int_to_string(n: i32) -> (r: String)
    ensures
        r@ == int_text(n as int),
{
    let wide = n as i64;
    if wide < 0 {
        let mut v: Vec<char> = Vec::new();
        v.push('-');
        let digits = crate::text::decimal_chars((0 - wide) as u64);
        crate::text::push_all(&mut v, &digits);
        crate::text::string_from_chars(&v)
    } else {
        crate::text::string_from_chars(&crate::text::decimal_chars(wide as u64))
    }
}

/// The texts of a card: its status class and label, its link text, and its
/// player and peak numbers (`-` for a server in progress, which also hides
/// the sparkline and uptime grids).
pub fn card_labels<P>(card: &ServerCardData<P>) -> (l: CardLabels)
    ensures
        l.status_class@ == status_class_text(card.status),
        l.status_text@ == status_label_text(card.status),
        l.link_text@ == link_label_text(card.link@),
        l.players@ == count_text(card.status == Status::Wip, card.current_players),
        l.peak@ == count_text(card.status == Status::Wip, card.peak_24h),
        l.show_details == (card.status != Status::Wip),
{
    let (class, label) = match card.status {
        Status::Online => ("online", "Online"),
        Status::Offline => ("offline", "Offline"),
        Status::Wip => ("wip", "WIP"),
    };
    let is_wip = card.status == Status::Wip;
    let link = crate::text::chars_of(card.link.as_str());
    let discord = crate::text::chars_of("discord");
    let link_text = if contains_chars(&link, &discord) {
        "Join Discord"
    } else {
        "Visit Homepage"
    };
    let players = if is_wip {
        crate::text::owned("-")
    } else {
        int_to_string(card.current_players)
    };
    let peak = if is_wip {
        crate::text::owned("-")
    } else {
        int_to_string(card.peak_24h)
    };
    CardLabels {
        status_class: crate::text::owned(class),
        status_text: crate::text::owned(label),
        link_text: crate::text::owned(link_text),
        players,
        peak,
        show_details: !is_wip,
    }
}

/// Law (how a card's link is labelled): a link in which the text `discord`
/// occurs anywhere is joined, and any other link is visited.
pub proof fn law_link_label(link: Seq<char>)
    ensures
        (exists|i: int|
            0 <= i && i + 7 <= link.len() && #[trigger] link.subrange(i, i + 7) == seq![
                'd',
                'i',
                's',
                'c',
                'o',
                'r',
                'd',
            ]) ==> link_label_text(link) == seq![
            'J',
            'o',
            'i',
            'n',
            ' ',
            'D',
            'i',
            's',
            'c',
            'o',
            'r',
            'd',
        ],
        !(exists|i: int|
            0 <= i && i + 7 <= link.len() && #[trigger] link.subrange(i, i + 7) == seq![
                'd',
                'i',
                's',
                'c',
                'o',
                'r',
                'd',
            ]) ==> link_label_text(link) == seq![
            'V',
            'i',
            's',
            'i',
            't',
            ' ',
            'H',
            'o',
            'm',
            'e',
            'p',
            'a',
            'g',
            'e',
        ],
{
    reveal_strlit("discord");
    reveal_strlit("Join Discord");
    reveal_strlit("Visit Homepage");
    let d = seq!['d', 'i', 's', 'c', 'o', 'r', 'd'];
    assert("discord"@ =~= d);
    assert("Join Discord"@ =~= seq!['J', 'o', 'i', 'n', ' ', 'D', 'i', 's', 'c', 'o', 'r', 'd']);
    assert("Visit Homepage"@ =~= seq![
        'V',
        'i',
        's',
        'i',
        't',
        ' ',
        'H',
        'o',
        'm',
        'e',
        'p',
        'a',
        'g',
        'e',
    ]);
    if exists|i: int| 0 <= i && i + 7 <= link.len() && #[trigger] link.subrange(i, i + 7) == d {
        let i = choose|i: int| 0 <= i && i + 7 <= link.len() && #[trigger] link.subrange(i, i + 7) == d;
        assert(link.subrange(i, i + "discord"@.len()) == "discord"@);
    }
}

/// Law (player numbers read back): the number a card shows for a server that
/// is no work in progress reads back, as `str::parse` reads it, as the
/// number itself; a server in progress shows `-`.
pub proof fn law_count_reads_back(n: i32)
    ensures
        parse_i64(count_text(false, n)) == Some(n as i64),
        count_text(true, n) == seq!['-'],
{
    reveal_strlit("-");
    if n < 0 {
        let m = (0 - n) as nat;
        crate::routes::lemma_decimal_digits(m);
        let s = int_text(n as int);
        assert(s[0] == '-');
        assert(s.drop_first() =~= decimal(m));
    } else {
        crate::routes::lemma_decimal_digits(n as nat);
        let s = decimal(n as nat);
        assert(crate::text::is_ascii_digit(s[0]));
    }
}

/// Law (a card's status texts): its CSS class is its label in lower case,
/// and different statuses have different labels.
pub proof fn law_status_texts(a: Status, b: Status)
    ensures
        status_class_text(a) == crate::text::ascii_lower(status_label_text(a)),
        a != b ==> status_label_text(a) != status_label_text(b),
{
    reveal_strlit("online");
    reveal_strlit("offline");
    reveal_strlit("wip");
    reveal_strlit("Online");
    reveal_strlit("Offline");
    reveal_strlit("WIP");
    let l = status_label_text(a);
    assert(crate::text::ascii_lower(l) =~= status_class_text(a));
    if a != b {
        let m = status_label_text(b);
        if l.len() == m.len() {
            assert(l[0] != m[0] || l[1] != m[1]);
        }
    }
}

/// The days of the one-week grid: the first seven of the two-week list.
pub fn week_of<P: Copy>(days: &Vec<DailyUptime<P>>) -> (w: Vec<DailyUptime<P>>)
    ensures
        days.len() <= 7 ==> w@ == days@,
        days.len() > 7 ==> w@ == days@.subrange(0, 7),
{
    let n = if days.len() < 7 {
        days.len()
    } else {
        7
    };
    let mut w: Vec<DailyUptime<P>> = Vec::new();
    let mut i: usize = 0;
    while i < n
        invariant
            i <= n <= days.len(),
            n == days.len() || n == 7,
            w@ == days@.subrange(0, i as int),
        decreases n - i,
    {
        w.push(DailyUptime { day: days[i].day.clone(), uptime_percent: days[i].uptime_percent });
        i = i + 1;
        assert(w@ =~= days@.subrange(0, i as int));
    }
    assert(days.len() <= 7 ==> days@.subrange(0, n as int) =~= days@);
    w
}

} // verus!
