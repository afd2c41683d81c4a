//! Character-level text operations shared by the rest of the library:
//! prefixes, trimming, splitting, ASCII case folding, and decimal numbers.
//! Each operation has a spec function over `Seq<char>` that states what it
//! computes, and an executable version proved against it.
use vstd::prelude::*;

verus! {

// ---------------------------------------------------------------------------
// Specifications
// ---------------------------------------------------------------------------

/// `p` is a prefix of `s`.
pub open spec fn has_prefix(s: Seq<char>, p: Seq<char>) -> bool {
    p.len() <= s.len() && s.subrange(0, p.len() as int) == p
}

/// `s` with its prefix `p` removed, when `s` starts with `p`.
pub open spec fn strip_prefix(s: Seq<char>, p: Seq<char>) -> Option<Seq<char>> {
    if has_prefix(s, p) {
        Some(s.subrange(p.len() as int, s.len() as int))
    } else {
        None
    }
}

/// `c` is one of the ASCII digits `0`..`9`.
pub open spec fn is_ascii_digit(c: char) -> bool {
    '0' as u32 <= c as u32 && c as u32 <= '9' as u32
}

/// Every character of `s` is an ASCII digit.
pub open spec fn all_digits(s: Seq<char>) -> bool {
    forall|i: int| 0 <= i < s.len() ==> #[trigger] is_ascii_digit(s[i])
}

/// The numeric value of one digit character.
pub open spec fn digit_value(c: char) -> nat {
    (c as u32 - '0' as u32) as nat
}

/// The value of a string of decimal digits, most significant first.
pub open spec fn decimal_value(s: Seq<char>) -> nat
    decreases s.len(),
{
    if s.len() == 0 {
        0
    } else {
        decimal_value(s.drop_last()) * 10 + digit_value(s.last())
    }
}

/// The digits that an unsigned parse reads: an optional leading `+` is dropped.
pub open spec fn unsigned_digits(s: Seq<char>) -> Seq<char> {
    if s.len() > 0 && s[0] == '+' {
        s.drop_first()
    } else {
        s
    }
}

/// What `str::parse::<u8>` gives: an optional `+`, then one or more ASCII
/// digits whose value is at most 255; anything else is no number.
pub open spec fn parse_u8(s: Seq<char>) -> Option<u8> {
    let d = unsigned_digits(s);
    if d.len() > 0 && all_digits(d) && decimal_value(d) <= 255 {
        Some(decimal_value(d) as u8)
    } else {
        None
    }
}

/// What `str::parse::<i64>` gives: an optional `+` or `-`, then one or more
/// ASCII digits whose signed value lies in the range of `i64`.
pub open spec fn parse_i64(s: Seq<char>) -> Option<i64> {
    if s.len() > 0 && s[0] == '-' {
        let d = s.drop_first();
        if d.len() > 0 && all_digits(d) && decimal_value(d) <= 0x8000_0000_0000_0000 {
            Some((0 - decimal_value(d)) as i64)
        } else {
            None
        }
    } else {
        let d = unsigned_digits(s);
        if d.len() > 0 && all_digits(d) && decimal_value(d) <= 0x7fff_ffff_ffff_ffff {
            Some(decimal_value(d) as i64)
        } else {
            None
        }
    }
}

/// The digit character for a value below ten.
pub open spec fn digit_char(d: nat) -> char {
    (('0' as u32) + d) as char
}

/// The decimal notation of `n`, without sign or leading zeros.
pub open spec fn decimal(n: nat) -> Seq<char>
    decreases n,
{
    if n < 10 {
        seq![digit_char(n)]
    } else {
        decimal(n / 10).push(digit_char(n % 10))
    }
}

/// The Unicode `White_Space` property, which `char::is_whitespace` tests.
pub open spec fn is_whitespace(c: char) -> bool {
    let u = c as u32;
    ||| 0x9 <= u && u <= 0xD
    ||| u == 0x20
    ||| u == 0x85
    ||| u == 0xA0
    ||| u == 0x1680
    ||| 0x2000 <= u && u <= 0x200A
    ||| u == 0x2028
    ||| u == 0x2029
    ||| u == 0x202F
    ||| u == 0x205F
    ||| u == 0x3000
}

/// `s` without its leading whitespace.
pub open spec fn trim_start(s: Seq<char>) -> Seq<char>
    decreases s.len(),
{
    if s.len() > 0 && is_whitespace(s[0]) {
        trim_start(s.drop_first())
    } else {
        s
    }
}

/// `s` without its trailing whitespace.
pub open spec fn trim_end(s: Seq<char>) -> Seq<char>
    decreases s.len(),
{
    if s.len() > 0 && is_whitespace(s.last()) {
        trim_end(s.drop_last())
    } else {
        s
    }
}

/// `s` without leading and trailing whitespace, as `str::trim` gives it.
pub open spec fn trim(s: Seq<char>) -> Seq<char> {
    trim_end(trim_start(s))
}

/// Where `trim_start` cuts: everything before is whitespace, and what it
/// keeps does not start with whitespace.
pub proof fn lemma_trim_start_cut(s: Seq<char>) -> (a: int)
    ensures
        0 <= a <= s.len(),
        trim_start(s) == s.subrange(a, s.len() as int),
        forall|k: int| 0 <= k < a ==> is_whitespace(#[trigger] s[k]),
        a < s.len() ==> !is_whitespace(s[a]),
    decreases s.len(),
{
    if s.len() > 0 && is_whitespace(s[0]) {
        let t = s.drop_first();
        let a0 = lemma_trim_start_cut(t);
        assert(t.subrange(a0, t.len() as int) =~= s.subrange(a0 + 1, s.len() as int));
        assert forall|k: int| 0 <= k < a0 + 1 implies is_whitespace(#[trigger] s[k]) by {
            if k > 0 {
                assert(s[k] == t[k - 1]);
            }
        }
        a0 + 1
    } else {
        assert(s.subrange(0, s.len() as int) =~= s);
        0
    }
}

/// Where `trim_end` cuts: everything after is whitespace, and what it keeps
/// does not end with whitespace.
pub proof fn lemma_trim_end_cut(s: Seq<char>) -> (b: int)
    ensures
        0 <= b <= s.len(),
        trim_end(s) == s.subrange(0, b),
        forall|k: int| b <= k < s.len() ==> is_whitespace(#[trigger] s[k]),
        b > 0 ==> !is_whitespace(s[b - 1]),
    decreases s.len(),
{
    if s.len() > 0 && is_whitespace(s.last()) {
        let t = s.drop_last();
        let b0 = lemma_trim_end_cut(t);
        assert(t.subrange(0, b0) =~= s.subrange(0, b0));
        assert forall|k: int| b0 <= k < s.len() implies is_whitespace(#[trigger] s[k]) by {
            if k < s.len() - 1 {
                assert(s[k] == t[k]);
            }
        }
        b0
    } else {
        assert(s.subrange(0, s.len() as int) =~= s);
        s.len() as int
    }
}

/// Law (what trimming removes): `trim(s)` is a stretch of `s` with only
/// whitespace before and after it, and it neither starts nor ends with
/// whitespace.
pub proof fn law_trim(s: Seq<char>)
    ensures
        exists|a: int, b: int|
            0 <= a <= b <= s.len() && #[trigger] s.subrange(a, b) == trim(s) && (forall|k: int|
                0 <= k < a ==> is_whitespace(#[trigger] s[k])) && (forall|k: int|
                b <= k < s.len() ==> is_whitespace(#[trigger] s[k])),
        trim(s).len() > 0 ==> !is_whitespace(trim(s)[0]) && !is_whitespace(trim(s).last()),
{
    let a = lemma_trim_start_cut(s);
    let u = trim_start(s);
    let b0 = lemma_trim_end_cut(u);
    let b = a + b0;
    assert(s.subrange(a, b) =~= trim(s));
    assert forall|k: int| b <= k < s.len() implies is_whitespace(#[trigger] s[k]) by {
        assert(s[k] == u[k - a]);
    }
    if trim(s).len() > 0 {
        assert(trim(s)[0] == u[0]);
        assert(u[0] == s[a]);
    }
    assert(0 <= a <= b <= s.len() && s.subrange(a, b) == trim(s));
}

/// ASCII upper-case letters mapped to lower case, every other character kept.
pub open spec fn lower_char(c: char) -> char {
    if 'A' as u32 <= c as u32 && c as u32 <= 'Z' as u32 {
        ((c as u32) + 32) as char
    } else {
        c
    }
}

/// `s` with `lower_char` applied to each character (`str::to_ascii_lowercase`).
pub open spec fn ascii_lower(s: Seq<char>) -> Seq<char> {
    s.map_values(|c: char| lower_char(c))
}

/// The pieces of `s` between occurrences of `sep`, as `str::split` yields
/// them: always at least one piece, empty pieces included.
pub open spec fn split_on(s: Seq<char>, sep: char) -> Seq<Seq<char>>
    decreases s.len(),
{
    if s.len() == 0 {
        seq![Seq::<char>::empty()]
    } else {
        let prev = split_on(s.drop_last(), sep);
        if s.last() == sep {
            prev.push(Seq::<char>::empty())
        } else {
            prev.update(prev.len() - 1, prev.last().push(s.last()))
        }
    }
}

/// Index of the first `c` in `s`, or `s.len()` when there is none.
pub open spec fn first_index_of(s: Seq<char>, c: char) -> nat
    decreases s.len(),
{
    if s.len() == 0 {
        0
    } else if s[0] == c {
        0
    } else {
        1 + first_index_of(s.drop_first(), c)
    }
}

/// Index of the last `c` in `s`, if any.
pub open spec fn last_index_of(s: Seq<char>, c: char) -> Option<nat>
    decreases s.len(),
{
    if s.len() == 0 {
        None
    } else if s.last() == c {
        Some((s.len() - 1) as nat)
    } else {
        last_index_of(s.drop_last(), c)
    }
}

/// Number of bytes that `c` takes in UTF-8.
pub open spec fn utf8_width(c: char) -> nat {
    let u = c as u32;
    if u < 0x80 {
        1
    } else if u < 0x800 {
        2
    } else if u < 0x10000 {
        3
    } else {
        4
    }
}

/// Number of bytes that `s` takes in UTF-8, which is what `str::len` returns.
pub open spec fn byte_len(s: Seq<char>) -> nat
    decreases s.len(),
{
    if s.len() == 0 {
        0
    } else {
        byte_len(s.drop_last()) + utf8_width(s.last())
    }
}

/// Law (UTF-8 length, as `str::len` counts it): the length of a joined text
/// is the sum of the lengths of its parts, and a single character takes one
/// byte below U+0080, two below U+0800, three below U+10000 and four above.
pub proof fn law_byte_len(a: Seq<char>, b: Seq<char>, c: char)
    ensures
        byte_len(a + b) == byte_len(a) + byte_len(b),
        byte_len(seq![c]) == (if (c as u32) < 0x80 {
            1nat
        } else if (c as u32) < 0x800 {
            2nat
        } else if (c as u32) < 0x10000 {
            3nat
        } else {
            4nat
        }),
        byte_len(a) >= a.len(),
    decreases b.len(), a.len(),
{
    if b.len() > 0 {
        law_byte_len(a, b.drop_last(), c);
        assert((a + b).drop_last() =~= a + b.drop_last());
        assert((a + b).last() == b.last());
    } else {
        assert(a + b =~= a);
        if a.len() > 0 {
            law_byte_len(a.drop_last(), b, c);
        }
    }
    assert(seq![c].drop_last() =~= Seq::<char>::empty());
    assert(byte_len(seq![c].drop_last()) == 0);
    assert(seq![c].last() == c);
    assert(byte_len(seq![c]) == utf8_width(c));
}

/// The views of a sequence of character vectors.
pub open spec fn views(v: Seq<Vec<char>>) -> Seq<Seq<char>> {
    v.map_values(|x: Vec<char>| x@)
}

// ---------------------------------------------------------------------------
// Lemmas
// ---------------------------------------------------------------------------

/// A prefix of a digit string never has a larger value than the whole.
pub proof fn lemma_decimal_prefix_le(s: Seq<char>, i: int)
    requires
        0 <= i <= s.len(),
    ensures
        decimal_value(s.subrange(0, i)) <= decimal_value(s),
    decreases s.len() - i,
{
    if i < s.len() {
        lemma_decimal_prefix_le(s, i + 1);
        assert(s.subrange(0, i + 1).drop_last() =~= s.subrange(0, i));
    } else {
        assert(s.subrange(0, i) =~= s);
    }
}

/// A prefix never takes more UTF-8 bytes than the whole.
pub proof fn lemma_byte_len_prefix_le(s: Seq<char>, i: int)
    requires
        0 <= i <= s.len(),
    ensures
        byte_len(s.subrange(0, i)) <= byte_len(s),
    decreases s.len() - i,
{
    if i < s.len() {
        lemma_byte_len_prefix_le(s, i + 1);
        assert(s.subrange(0, i + 1).drop_last() =~= s.subrange(0, i));
    } else {
        assert(s.subrange(0, i) =~= s);
    }
}

/// Splitting at a separator splits each side on its own.
pub proof fn lemma_split_concat(x: Seq<char>, y: Seq<char>, sep: char)
    ensures
        split_on(x + seq![sep] + y, sep) == split_on(x, sep) + split_on(y, sep),
    decreases y.len(),
{
    if y.len() == 0 {
        assert(x + seq![sep] + y =~= x.push(sep));
        assert(x.push(sep).drop_last() =~= x);
        assert(split_on(x, sep) + split_on(y, sep) =~= split_on(x, sep).push(Seq::<char>::empty()));
    } else {
        let s = x + seq![sep] + y;
        lemma_split_concat(x, y.drop_last(), sep);
        lemma_split_nonempty(y.drop_last(), sep);
        assert(s.drop_last() =~= x + seq![sep] + y.drop_last());
        assert(s.last() == y.last());
        let a = split_on(x, sep);
        let b = split_on(y.drop_last(), sep);
        if y.last() == sep {
            assert((a + b).push(Seq::<char>::empty()) =~= a + b.push(Seq::<char>::empty()));
        } else {
            assert((a + b).update((a + b).len() - 1, (a + b).last().push(y.last())) =~= a
                + b.update(b.len() - 1, b.last().push(y.last())));
        }
    }
}

/// A text without the separator is one piece.
pub proof fn lemma_split_without_sep(s: Seq<char>, sep: char)
    requires
        forall|i: int| 0 <= i < s.len() ==> #[trigger] s[i] != sep,
    ensures
        split_on(s, sep) == seq![s],
    decreases s.len(),
{
    if s.len() > 0 {
        lemma_split_without_sep(s.drop_last(), sep);
        assert(s.last() == s[s.len() - 1]);
        assert(s.drop_last().push(s.last()) =~= s);
        let prev = split_on(s.drop_last(), sep);
        assert(s.last() != sep);
        assert(prev.update(prev.len() - 1, prev.last().push(s.last())) =~= seq![s]);
    } else {
        assert(s =~= Seq::<char>::empty());
    }
}

/// The notation of a positive number does not start with `0`.
pub proof fn lemma_decimal_lead(n: nat)
    ensures
        decimal(n).len() > 0,
        n > 0 ==> decimal(n)[0] != '0',
    decreases n,
{
    if n >= 10 {
        lemma_decimal_lead(n / 10);
        assert(decimal(n)[0] == decimal(n / 10)[0]);
    }
}

/// `split_on` always yields at least one piece.
pub proof fn lemma_split_nonempty(s: Seq<char>, sep: char)
    ensures
        split_on(s, sep).len() >= 1,
    decreases s.len(),
{
    if s.len() > 0 {
        lemma_split_nonempty(s.drop_last(), sep);
    }
}

/// Characterisation of `trim_start` by the number of leading whitespace characters.
pub proof fn lemma_trim_start_at(s: Seq<char>, k: int)
    requires
        0 <= k <= s.len(),
        forall|j: int| 0 <= j < k ==> is_whitespace(#[trigger] s[j]),
        k == s.len() || !is_whitespace(s[k]),
    ensures
        trim_start(s) == s.subrange(k, s.len() as int),
    decreases k,
{
    if k == 0 {
        assert(s.subrange(0, s.len() as int) =~= s);
    } else {
        let t = s.drop_first();
        assert forall|j: int| 0 <= j < k - 1 implies is_whitespace(#[trigger] t[j]) by {
            assert(t[j] == s[j + 1]);
        }
        lemma_trim_start_at(t, k - 1);
        assert(t.subrange(k - 1, t.len() as int) =~= s.subrange(k, s.len() as int));
    }
}

/// Characterisation of `trim_end` by the number of characters that are kept.
pub proof fn lemma_trim_end_at(s: Seq<char>, k: int)
    requires
        0 <= k <= s.len(),
        forall|j: int| k <= j < s.len() ==> is_whitespace(#[trigger] s[j]),
        k == 0 || !is_whitespace(s[k - 1]),
    ensures
        trim_end(s) == s.subrange(0, k),
    decreases s.len() - k,
{
    if k == s.len() {
        assert(s.subrange(0, k) =~= s);
    } else {
        let t = s.drop_last();
        lemma_trim_end_at(t, k);
        assert(t.subrange(0, k) =~= s.subrange(0, k));
    }
}

/// What `first_index_of` finds: no `c` before it, and a `c` there unless it
/// is the length.
pub proof fn lemma_first_index_props(s: Seq<char>, c: char)
    ensures
        first_index_of(s, c) <= s.len(),
        forall|j: int| 0 <= j < first_index_of(s, c) ==> #[trigger] s[j] != c,
        first_index_of(s, c) < s.len() ==> s[first_index_of(s, c) as int] == c,
    decreases s.len(),
{
    if s.len() > 0 && s[0] != c {
        let t = s.drop_first();
        lemma_first_index_props(t, c);
        assert forall|j: int| 0 <= j < first_index_of(s, c) implies #[trigger] s[j] != c by {
            if j > 0 {
                assert(s[j] == t[j - 1]);
            }
        }
    }
}

/// Characterisation of `first_index_of`.
pub proof fn lemma_first_index_at(s: Seq<char>, c: char, k: int)
    requires
        0 <= k <= s.len(),
        forall|j: int| 0 <= j < k ==> #[trigger] s[j] != c,
        k == s.len() || s[k] == c,
    ensures
        first_index_of(s, c) == k,
    decreases k,
{
    if k > 0 {
        let t = s.drop_first();
        assert forall|j: int| 0 <= j < k - 1 implies #[trigger] t[j] != c by {
            assert(t[j] == s[j + 1]);
        }
        lemma_first_index_at(t, c, k - 1);
    }
}

/// Characterisation of `last_index_of` when `c` occurs.
pub proof fn lemma_last_index_at(s: Seq<char>, c: char, k: int)
    requires
        0 <= k < s.len(),
        s[k] == c,
        forall|j: int| k < j < s.len() ==> #[trigger] s[j] != c,
    ensures
        last_index_of(s, c) == Some(k as nat),
    decreases s.len() - k,
{
    if k < s.len() - 1 {
        let t = s.drop_last();
        lemma_last_index_at(t, c, k);
    }
}

/// Characterisation of `last_index_of` when `c` does not occur.
pub proof fn lemma_last_index_none(s: Seq<char>, c: char)
    requires
        forall|j: int| 0 <= j < s.len() ==> #[trigger] s[j] != c,
    ensures
        last_index_of(s, c) is None,
    decreases s.len(),
{
    if s.len() > 0 {
        lemma_last_index_none(s.drop_last(), c);
    }
}

// ---------------------------------------------------------------------------
// Executable operations
// ---------------------------------------------------------------------------

/// Characters of `s`, in order.
pub fn chars_of(s: &str) -> (v: Vec<char>)
    ensures
        v@ == s@,
{
    broadcast use vstd::string::group_string_axioms;

    let mut v: Vec<char> = Vec::new();
    for c in it: s.chars()
        invariant
            v@ == it.seq().take(it.index() as int),
    {
        v.push(c);
    }
    v
}

/// Builds a `String` from characters through std's `FromIterator<&char>`
/// for `String` (`collect`); the contract claims that the result holds
/// exactly these characters, in order.
#[verifier::external_body]
pub(crate) fn string_from_chars(v: &Vec<char>) -> (s: String)
    ensures
        s@ == v@,
{
    v.iter().collect()
}

/// A `String` holding the characters of `s`.
pub fn owned(s: &str) -> (r: String)
    ensures
        r@ == s@,
{
    String::from_str(s)
}

/// Appends the characters of `p` to `out`.
pub fn push_all(out: &mut Vec<char>, p: &Vec<char>)
    ensures
        final(out)@ == old(out)@ + p@,
{
    let ghost start = out@;
    let mut i: usize = 0;
    while i < p.len()
        invariant
            i <= p.len(),
            out@ == start + p@.subrange(0, i as int),
        decreases p.len() - i,
    {
        out.push(p[i]);
        i = i + 1;
        assert(out@ =~= start + p@.subrange(0, i as int));
    }
    assert(p@.subrange(0, p.len() as int) =~= p@);
}

/// Whether `s` starts with `p`.
pub fn starts_with(s: &Vec<char>, p: &Vec<char>) -> (b: bool)
    ensures
        b == has_prefix(s@, p@),
{
    if p.len() > s.len() {
        return false;
    }
    let mut i: usize = 0;
    while i < p.len()
        invariant
            p.len() <= s.len(),
            i <= p.len(),
            forall|j: int| 0 <= j < i ==> s@[j] == p@[j],
        decreases p.len() - i,
    {
        if s[i] != p[i] {
            assert(s@.subrange(0, p.len() as int)[i as int] != p@[i as int]);
            return false;
        }
        i = i + 1;
    }
    assert(s@.subrange(0, p.len() as int) =~= p@);
    true
}

/// Whether `s` starts with the characters of `p`.
pub fn starts_with_str(s: &Vec<char>, p: &str) -> (b: bool)
    ensures
        b == has_prefix(s@, p@),
{
    let pv = chars_of(p);
    starts_with(s, &pv)
}

/// Whether `s` holds exactly the characters of `p`.
pub fn equals_str(s: &Vec<char>, p: &str) -> (b: bool)
    ensures
        b == (s@ == p@),
{
    let pv = chars_of(p);
    let r = s.len() == pv.len() && starts_with(s, &pv);
    proof {
        if s@.len() == pv@.len() {
            assert(s@.subrange(0, pv@.len() as int) =~= s@);
        }
    }
    r
}

/// The characters of `s` from index `lo` up to (not including) `hi`.
pub fn slice_chars(s: &Vec<char>, lo: usize, hi: usize) -> (r: Vec<char>)
    requires
        lo <= hi <= s.len(),
    ensures
        r@ == s@.subrange(lo as int, hi as int),
{
    let mut r: Vec<char> = Vec::new();
    let mut i = lo;
    while i < hi
        invariant
            lo <= i <= hi <= s.len(),
            r@ == s@.subrange(lo as int, i as int),
        decreases hi - i,
    {
        r.push(s[i]);
        i = i + 1;
        assert(r@ =~= s@.subrange(lo as int, i as int));
    }
    r
}

/// `s` with the prefix `p` removed, if `s` starts with `p`.
pub fn strip_prefix_str(s: &Vec<char>, p: &str) -> (r: Option<Vec<char>>)
    ensures
        match r {
            Some(t) => strip_prefix(s@, p@) == Some(t@),
            None => strip_prefix(s@, p@) is None,
        },
{
    let pv = chars_of(p);
    if starts_with(s, &pv) {
        Some(slice_chars(s, pv.len(), s.len()))
    } else {
        None
    }
}

/// Whether `c` has the Unicode `White_Space` property.
pub fn is_whitespace_char(c: char) -> (b: bool)
    ensures
        b == is_whitespace(c),
{
    let u = c as u32;
    (0x9 <= u && u <= 0xD) || u == 0x20 || u == 0x85 || u == 0xA0 || u == 0x1680 || (0x2000
        <= u && u <= 0x200A) || u == 0x2028 || u == 0x2029 || u == 0x202F || u == 0x205F || u
        == 0x3000
}

/// `s` without leading and trailing whitespace.
pub fn trim_chars(s: &Vec<char>) -> (r: Vec<char>)
    ensures
        r@ == trim(s@),
{
    let n = s.len();
    let mut lo: usize = 0;
    while lo < n && is_whitespace_char(s[lo])
        invariant
            lo <= n == s.len(),
            forall|j: int| 0 <= j < lo ==> is_whitespace(#[trigger] s@[j]),
        decreases n - lo,
    {
        lo = lo + 1;
    }
    proof {
        lemma_trim_start_at(s@, lo as int);
    }
    let mut hi: usize = n;
    while hi > lo && is_whitespace_char(s[hi - 1])
        invariant
            lo <= hi <= n == s.len(),
            forall|j: int| hi <= j < n ==> is_whitespace(#[trigger] s@[j]),
        decreases hi - lo,
    {
        hi = hi - 1;
    }
    let ghost t = s@.subrange(lo as int, n as int);
    proof {
        assert forall|j: int| (hi - lo) <= j < t.len() implies is_whitespace(#[trigger] t[j]) by {
            assert(t[j] == s@[lo + j]);
        }
        if hi > lo {
            assert(t[hi - lo - 1] == s@[hi - 1]);
        }
        lemma_trim_end_at(t, (hi - lo) as int);
        assert(t.subrange(0, (hi - lo) as int) =~= s@.subrange(lo as int, hi as int));
    }
    slice_chars(s, lo, hi)
}

/// `s` with ASCII upper-case letters turned to lower case.
pub fn ascii_lower_chars(s: &Vec<char>) -> (r: Vec<char>)
    ensures
        r@ == ascii_lower(s@),
{
    let mut r: Vec<char> = Vec::new();
    let mut i: usize = 0;
    while i < s.len()
        invariant
            i <= s.len(),
            r@.len() == i,
            forall|j: int| 0 <= j < i ==> r@[j] == lower_char(#[trigger] s@[j]),
        decreases s.len() - i,
    {
        let c = s[i];
        let u = c as u32;
        if 'A' as u32 <= u && u <= 'Z' as u32 {
            let l: char = ((u + 32) as u8) as char;
            assert(l == lower_char(c)) by {
                assert((u + 32) as u8 as char == ((u + 32) as u32) as char);
            }
            r.push(l);
        } else {
            r.push(c);
        }
        i = i + 1;
    }
    assert(r@ =~= ascii_lower(s@));
    r
}

/// The pieces of `s` between occurrences of `sep`.
pub fn split_chars(s: &Vec<char>, sep: char) -> (r: Vec<Vec<char>>)
    ensures
        views(r@) == split_on(s@, sep),
{
    let mut done: Vec<Vec<char>> = Vec::new();
    let mut cur: Vec<char> = Vec::new();
    let mut i: usize = 0;
    while i < s.len()
        invariant
            i <= s.len(),
            views(done@).push(cur@) == split_on(s@.subrange(0, i as int), sep),
        decreases s.len() - i,
    {
        let ghost before = s@.subrange(0, i as int);
        let ghost prev = split_on(before, sep);
        proof {
            lemma_split_nonempty(before, sep);
            assert(s@.subrange(0, i + 1).drop_last() =~= before);
        }
        let c = s[i];
        if c == sep {
            let finished = cur;
            done.push(finished);
            cur = Vec::new();
            assert(views(done@).push(cur@) =~= prev.push(Seq::<char>::empty()));
        } else {
            cur.push(c);
            assert(views(done@).push(cur@) =~= prev.update(prev.len() - 1, prev.last().push(c)));
        }
        i = i + 1;
    }
    assert(s@.subrange(0, s.len() as int) =~= s@);
    done.push(cur);
    assert(views(done@) =~= split_on(s@, sep));
    done
}

/// The value of a digit string, when every character is a digit and the
/// value is at most `cap`.
pub fn digits_value(d: &Vec<char>, cap: u64) -> (r: Option<u64>)
    ensures
        r == (if all_digits(d@) && decimal_value(d@) <= cap {
            Some(decimal_value(d@) as u64)
        } else {
            None::<u64>
        }),
{
    let mut acc: u128 = 0;
    let mut i: usize = 0;
    while i < d.len()
        invariant
            i <= d.len(),
            all_digits(d@.subrange(0, i as int)),
            acc == decimal_value(d@.subrange(0, i as int)),
            acc <= cap,
        decreases d.len() - i,
    {
        let c = d[i];
        let u = c as u32;
        proof {
            assert(d@.subrange(0, i + 1).drop_last() =~= d@.subrange(0, i as int));
        }
        if u < '0' as u32 || u > '9' as u32 {
            assert(!is_ascii_digit(d@[i as int]));
            return None;
        }
        acc = acc * 10 + (u - '0' as u32) as u128;
        i = i + 1;
        assert(all_digits(d@.subrange(0, i as int))) by {
            assert forall|j: int| 0 <= j < i implies #[trigger] is_ascii_digit(
                d@.subrange(0, i as int)[j],
            ) by {
                if j < i - 1 {
                    assert(d@.subrange(0, i as int)[j] == d@.subrange(0, i - 1)[j]);
                }
            }
        }
        if acc > cap as u128 {
            proof {
                lemma_decimal_prefix_le(d@, i as int);
            }
            return None;
        }
    }
    assert(d@.subrange(0, d.len() as int) =~= d@);
    Some(acc as u64)
}

/// `str::parse::<u8>` on a character sequence.
pub fn parse_u8_chars(s: &Vec<char>) -> (r: Option<u8>)
    ensures
        r == parse_u8(s@),
{
    let d = if s.len() > 0 && s[0] == '+' {
        slice_chars(s, 1, s.len())
    } else {
        slice_chars(s, 0, s.len())
    };
    assert(d@ =~= unsigned_digits(s@));
    if d.len() == 0 {
        return None;
    }
    match digits_value(&d, 255) {
        Some(v) => Some(v as u8),
        None => None,
    }
}

/// `str::parse::<i64>` on a character sequence.
pub fn parse_i64_chars(s: &Vec<char>) -> (r: Option<i64>)
    ensures
        r == parse_i64(s@),
{
    if s.len() > 0 && s[0] == '-' {
        let d = slice_chars(s, 1, s.len());
        assert(d@ =~= s@.drop_first());
        if d.len() == 0 {
            return None;
        }
        match digits_value(&d, 0x8000_0000_0000_0000) {
            Some(v) => {
                if v == 0x8000_0000_0000_0000 {
                    Some(i64::MIN)
                } else {
                    Some(0 - (v as i64))
                }
            },
            None => None,
        }
    } else {
        let d = if s.len() > 0 && s[0] == '+' {
            slice_chars(s, 1, s.len())
        } else {
            slice_chars(s, 0, s.len())
        };
        assert(d@ =~= unsigned_digits(s@));
        if d.len() == 0 {
            return None;
        }
        match digits_value(&d, 0x7fff_ffff_ffff_ffff) {
            Some(v) => Some(v as i64),
            None => None,
        }
    }
}

/// The decimal notation of `n`.
pub fn decimal_chars(n: u64) -> (r: Vec<char>)
    ensures
        r@ == decimal(n as nat),
    decreases n,
{
    let d = (n % 10) as u8;
    let c: char = (('0' as u8) + d) as char;
    assert(c == digit_char((n % 10) as nat)) by {
        assert((('0' as u8) + d) as u8 as char == (('0' as u32) + (n % 10)) as char);
    }
    if n < 10 {
        let mut v: Vec<char> = Vec::new();
        v.push(c);
        assert(v@ =~= seq![digit_char(n as nat)]);
        v
    } else {
        let mut v = decimal_chars(n / 10);
        v.push(c);
        v
    }
}

/// Whether `s` takes more than `limit` bytes in UTF-8.
pub fn utf8_len_exceeds(s: &Vec<char>, limit: u64) -> (b: bool)
    requires
        limit < 0xffff_ffff_0000_0000,
    ensures
        b == (byte_len(s@) > limit),
{
    let mut acc: u64 = 0;
    let mut i: usize = 0;
    while i < s.len()
        invariant
            i <= s.len(),
            acc == byte_len(s@.subrange(0, i as int)),
            acc <= limit,
            limit < 0xffff_ffff_0000_0000,
        decreases s.len() - i,
    {
        let u = s[i] as u32;
        let w: u64 = if u < 0x80 {
            1
        } else if u < 0x800 {
            2
        } else if u < 0x10000 {
            3
        } else {
            4
        };
        proof {
            assert(s@.subrange(0, i + 1).drop_last() =~= s@.subrange(0, i as int));
        }
        acc = acc + w;
        i = i + 1;
        if acc > limit {
            proof {
                lemma_byte_len_prefix_le(s@, i as int);
            }
            return true;
        }
    }
    assert(s@.subrange(0, s.len() as int) =~= s@);
    false
}

} // verus!
