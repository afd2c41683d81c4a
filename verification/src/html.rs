//! Escaping of text placed in HTML, of JSON placed inside a `<script>`
//! element, and the page shell that every HTML answer is wrapped in.
use vstd::prelude::*;

use crate::text::has_prefix;

verus! {

/// What `c` becomes in escaped HTML text.
pub open spec fn escape_char(c: char) -> Seq<char> {
    if c == '&' {
        "&amp;"@
    } else if c == '<' {
        "&lt;"@
    } else if c == '>' {
        "&gt;"@
    } else if c == '"' {
        "&quot;"@
    } else if c == '\'' {
        "&#39;"@
    } else {
        seq![c]
    }
}

/// `s` with `&`, `<`, `>`, `"` and `'` replaced by their entities.
/// Replacing `&` first and then each of the others in turn gives the same.
pub open spec fn html_escaped(s: Seq<char>) -> Seq<char>
    decreases s.len(),
{
    if s.len() == 0 {
        Seq::<char>::empty()
    } else {
        html_escaped(s.drop_last()) + escape_char(s.last())
    }
}

/// `s` with every `</` turned into `<\/`, scanning from the left.
pub open spec fn script_safe(s: Seq<char>) -> Seq<char>
    decreases s.len(),
{
    if s.len() == 0 {
        s
    } else if s.len() >= 2 && s[0] == '<' && s[1] == '/' {
        seq!['<', '\\', '/'] + script_safe(s.subrange(2, s.len() as int))
    } else {
        seq![s[0]] + script_safe(s.drop_first())
    }
}

/// The page that `html_shell` builds.
pub open spec fn shell_page(
    title: Seq<char>,
    head_extra: Seq<char>,
    content: Seq<char>,
    data_id: Seq<char>,
    data_json: Seq<char>,
    controller: Seq<char>,
) -> Seq<char> {
    "<!DOCTYPE html><html lang=\"en\"><head><meta charset=\"utf-8\"><meta name=\"viewport\" content=\"width=device-width,initial-scale=1\">"@
        + head_extra + "<title>"@ + html_escaped(title)
        + "</title><link rel=\"icon\" type=\"image/x-icon\" href=\"/favicon.ico\"><link rel=\"stylesheet\" href=\"/styles/index.css\"></head><body>"@
        + content + "<script id=\""@ + html_escaped(data_id) + "\" type=\"application/json\">"@
        + data_json + "</script><script>"@ + controller + "</script></body></html>"@
}

/// Escapes `&`, `<`, `>`, `"` and `'` for use in HTML text and attributes.
pub fn html_escape(s: &str) -> (r: String)
    ensures
        r@ == html_escaped(s@),
{
    let v = crate::text::chars_of(s);
    let amp = crate::text::chars_of("&amp;");
    let lt = crate::text::chars_of("&lt;");
    let gt = crate::text::chars_of("&gt;");
    let quot = crate::text::chars_of("&quot;");
    let apos = crate::text::chars_of("&#39;");
    let mut out: Vec<char> = Vec::new();
    let mut i: usize = 0;
    while i < v.len()
        invariant
            i <= v.len(),
            out@ == html_escaped(v@.subrange(0, i as int)),
            amp@ == "&amp;"@,
            lt@ == "&lt;"@,
            gt@ == "&gt;"@,
            quot@ == "&quot;"@,
            apos@ == "&#39;"@,
        decreases v.len() - i,
    {
        proof {
            assert(v@.subrange(0, i + 1).drop_last() =~= v@.subrange(0, i as int));
        }
        let c = v[i];
        if c == '&' {
            crate::text::push_all(&mut out, &amp);
        } else if c == '<' {
            crate::text::push_all(&mut out, &lt);
        } else if c == '>' {
            crate::text::push_all(&mut out, &gt);
        } else if c == '"' {
            crate::text::push_all(&mut out, &quot);
        } else if c == '\'' {
            crate::text::push_all(&mut out, &apos);
        } else {
            out.push(c);
        }
        i = i + 1;
    }
    assert(v@.subrange(0, v.len() as int) =~= v@);
    crate::text::string_from_chars(&out)
}

/// Turns every `</` of a JSON text into `<\/`, so that the text cannot close
/// the `<script>` element it is embedded in.
pub fn escape_script_close(json: &str) -> (r: String)
    ensures
        r@ == script_safe(json@),
{
    let v = crate::text::chars_of(json);
    let mut out: Vec<char> = Vec::new();
    let mut i: usize = 0;
    assert(out@ + script_safe(v@.subrange(0, v.len() as int)) =~= script_safe(v@)) by {
        assert(v@.subrange(0, v.len() as int) =~= v@);
    }
    while i < v.len()
        invariant
            i <= v.len(),
            script_safe(v@) == out@ + script_safe(v@.subrange(i as int, v.len() as int)),
        decreases v.len() - i,
    {
        let ghost rest = v@.subrange(i as int, v.len() as int);
        if i + 1 < v.len() && v[i] == '<' && v[i + 1] == '/' {
            out.push('<');
            out.push('\\');
            out.push('/');
            proof {
                assert(rest.subrange(2, rest.len() as int) =~= v@.subrange(
                    i + 2,
                    v.len() as int,
                ));
                assert(out@ + script_safe(v@.subrange(i + 2, v.len() as int)) =~= out@.subrange(
                    0,
                    out@.len() - 3,
                ) + script_safe(rest));
            }
            i = i + 2;
        } else {
            out.push(v[i]);
            proof {
                assert(rest.drop_first() =~= v@.subrange(i + 1, v.len() as int));
                assert(out@ + script_safe(v@.subrange(i + 1, v.len() as int)) =~= out@.subrange(
                    0,
                    out@.len() - 1,
                ) + script_safe(rest));
            }
            i = i + 1;
        }
    }
    assert(out@ + script_safe(v@.subrange(v.len() as int, v.len() as int)) =~= out@);
    crate::text::string_from_chars(&out)
}

/// Wraps rendered content in the site's HTML page: the head with `title`
/// (escaped) and `head_extra`, the content, the JSON data in a script element
/// whose id is `data_id` (escaped), and the page's controller script.
pub fn html_shell(
    title: &str,
    head_extra: &str,
    content: &str,
    data_id: &str,
    data_json: &str,
    controller: &str,
) -> (r: String)
    ensures
        r@ == shell_page(title@, head_extra@, content@, data_id@, data_json@, controller@),
{
    let safe_title = html_escape(title);
    let safe_data_id = html_escape(data_id);
    let mut out = crate::text::owned(
        "<!DOCTYPE html><html lang=\"en\"><head><meta charset=\"utf-8\"><meta name=\"viewport\" content=\"width=device-width,initial-scale=1\">",
    );
    out.append(head_extra);
    out.append("<title>");
    out.append(safe_title.as_str());
    out.append(
        "</title><link rel=\"icon\" type=\"image/x-icon\" href=\"/favicon.ico\"><link rel=\"stylesheet\" href=\"/styles/index.css\"></head><body>",
    );
    out.append(content);
    out.append("<script id=\"");
    out.append(safe_data_id.as_str());
    out.append("\" type=\"application/json\">");
    out.append(data_json);
    out.append("</script><script>");
    out.append(controller);
    out.append("</script></body></html>");
    out
}

// ---------------------------------------------------------------------------
// Laws
// ---------------------------------------------------------------------------

/// The characters that escaped HTML never contains.
pub open spec fn is_markup_char(c: char) -> bool {
    c == '<' || c == '>' || c == '"' || c == '\''
}

/// Law: escaped text contains no `<`, `>`, `"` or `'`, so it can neither open
/// a tag nor leave an attribute value.
pub proof fn law_escaped_has_no_markup(s: Seq<char>)
    ensures
        forall|i: int| 0 <= i < html_escaped(s).len() ==> !is_markup_char(#[trigger] html_escaped(s)[i]),
    decreases s.len(),
{
    if s.len() > 0 {
        law_escaped_has_no_markup(s.drop_last());
        reveal_strlit("&amp;");
        reveal_strlit("&lt;");
        reveal_strlit("&gt;");
        reveal_strlit("&quot;");
        reveal_strlit("&#39;");
        let prev = html_escaped(s.drop_last());
        let e = escape_char(s.last());
        assert forall|i: int| 0 <= i < html_escaped(s).len() implies !is_markup_char(
            #[trigger] html_escaped(s)[i],
        ) by {
            if i < prev.len() {
                assert(html_escaped(s)[i] == prev[i]);
            } else {
                assert(html_escaped(s)[i] == e[i - prev.len()]);
            }
        }
    }
}

/// `c` is one of the five characters that escaping replaces.
pub open spec fn is_escaped_char(c: char) -> bool {
    c == '&' || c == '<' || c == '>' || c == '"' || c == '\''
}

/// The entity for `&`.
pub open spec fn amp_entity() -> Seq<char> {
    seq!['&', 'a', 'm', 'p', ';']
}

/// The entity for `<`.
pub open spec fn lt_entity() -> Seq<char> {
    seq!['&', 'l', 't', ';']
}

/// The entity for `>`.
pub open spec fn gt_entity() -> Seq<char> {
    seq!['&', 'g', 't', ';']
}

/// The entity for `"`.
pub open spec fn quot_entity() -> Seq<char> {
    seq!['&', 'q', 'u', 'o', 't', ';']
}

/// The entity for `'`.
pub open spec fn apos_entity() -> Seq<char> {
    seq!['&', '#', '3', '9', ';']
}

/// `t` with the five entities that escaping writes read back as the
/// characters they stand for, in one pass from the left; anything else is
/// kept as it is.
pub open spec fn html_unescaped(t: Seq<char>) -> Seq<char>
    decreases t.len(),
{
    if t.len() == 0 {
        t
    } else if has_prefix(t, amp_entity()) {
        seq!['&'] + html_unescaped(t.subrange(5, t.len() as int))
    } else if has_prefix(t, lt_entity()) {
        seq!['<'] + html_unescaped(t.subrange(4, t.len() as int))
    } else if has_prefix(t, gt_entity()) {
        seq!['>'] + html_unescaped(t.subrange(4, t.len() as int))
    } else if has_prefix(t, quot_entity()) {
        seq!['"'] + html_unescaped(t.subrange(6, t.len() as int))
    } else if has_prefix(t, apos_entity()) {
        seq!['\''] + html_unescaped(t.subrange(5, t.len() as int))
    } else {
        seq![t[0]] + html_unescaped(t.drop_first())
    }
}

/// Escaping a concatenation escapes each part.
pub proof fn lemma_html_escaped_concat(a: Seq<char>, b: Seq<char>)
    ensures
        html_escaped(a + b) == html_escaped(a) + html_escaped(b),
    decreases b.len(),
{
    if b.len() == 0 {
        assert(a + b =~= a);
        assert(html_escaped(a) + html_escaped(b) =~= html_escaped(a));
    } else {
        lemma_html_escaped_concat(a, b.drop_last());
        assert((a + b).drop_last() =~= a + b.drop_last());
        assert((a + b).last() == b.last());
        assert(html_escaped(a + b) =~= html_escaped(a) + html_escaped(b));
    }
}

/// A text that does not start with `p`, seen at one position.
proof fn lemma_no_prefix(t: Seq<char>, p: Seq<char>, k: int)
    requires
        0 <= k < p.len(),
        k < t.len(),
        t[k] != p[k],
    ensures
        !has_prefix(t, p),
{
    if has_prefix(t, p) {
        assert(t.subrange(0, p.len() as int)[k] == t[k]);
    }
}

/// Reading back the escape of `c` in front of `rest` gives `c` in front of
/// what `rest` reads back as.
proof fn lemma_unescape_step(c: char, rest: Seq<char>)
    ensures
        html_unescaped(escape_char(c) + rest) == seq![c] + html_unescaped(rest),
{
    reveal_strlit("&amp;");
    reveal_strlit("&lt;");
    reveal_strlit("&gt;");
    reveal_strlit("&quot;");
    reveal_strlit("&#39;");
    let e = escape_char(c);
    let t = e + rest;
    assert(t.len() > 0);
    if c == '&' {
        assert(e =~= amp_entity());
        assert(t.subrange(0, 5) =~= amp_entity());
        assert(t.subrange(5, t.len() as int) =~= rest);
    } else if c == '<' {
        assert(e =~= lt_entity());
        lemma_no_prefix(t, amp_entity(), 1);
        assert(t.subrange(0, 4) =~= lt_entity());
        assert(t.subrange(4, t.len() as int) =~= rest);
    } else if c == '>' {
        assert(e =~= gt_entity());
        lemma_no_prefix(t, amp_entity(), 1);
        lemma_no_prefix(t, lt_entity(), 1);
        assert(t.subrange(0, 4) =~= gt_entity());
        assert(t.subrange(4, t.len() as int) =~= rest);
    } else if c == '"' {
        assert(e =~= quot_entity());
        lemma_no_prefix(t, amp_entity(), 1);
        lemma_no_prefix(t, lt_entity(), 1);
        lemma_no_prefix(t, gt_entity(), 1);
        assert(t.subrange(0, 6) =~= quot_entity());
        assert(t.subrange(6, t.len() as int) =~= rest);
    } else if c == '\'' {
        assert(e =~= apos_entity());
        lemma_no_prefix(t, amp_entity(), 1);
        lemma_no_prefix(t, lt_entity(), 1);
        lemma_no_prefix(t, gt_entity(), 1);
        lemma_no_prefix(t, quot_entity(), 1);
        assert(t.subrange(0, 5) =~= apos_entity());
        assert(t.subrange(5, t.len() as int) =~= rest);
    } else {
        assert(e =~= seq![c]);
        lemma_no_prefix(t, amp_entity(), 0);
        lemma_no_prefix(t, lt_entity(), 0);
        lemma_no_prefix(t, gt_entity(), 0);
        lemma_no_prefix(t, quot_entity(), 0);
        lemma_no_prefix(t, apos_entity(), 0);
        assert(t.drop_first() =~= rest);
    }
}

/// Law (escaping loses nothing): reading the entities of an escaped text
/// back, from the left, gives the original text.
pub proof fn law_unescape_after_escape(s: Seq<char>)
    ensures
        html_unescaped(html_escaped(s)) == s,
    decreases s.len(),
{
    if s.len() > 0 {
        let rest = s.drop_first();
        law_unescape_after_escape(rest);
        assert(s =~= seq![s[0]] + rest);
        lemma_html_escaped_concat(seq![s[0]], rest);
        let one = seq![s[0]];
        assert(one.drop_last() =~= Seq::<char>::empty());
        assert(html_escaped(one.drop_last()) =~= Seq::<char>::empty());
        assert(one.last() == s[0]);
        assert(html_escaped(one) =~= escape_char(s[0]));
        lemma_unescape_step(s[0], html_escaped(rest));
        assert(seq![s[0]] + rest =~= s);
    }
}

/// At position `i` of `t` begins one of the five entities that escaping
/// writes.
pub open spec fn entity_at(t: Seq<char>, i: int) -> bool {
    let rest = t.subrange(i, t.len() as int);
    ||| has_prefix(rest, amp_entity())
    ||| has_prefix(rest, lt_entity())
    ||| has_prefix(rest, gt_entity())
    ||| has_prefix(rest, quot_entity())
    ||| has_prefix(rest, apos_entity())
}

/// A prefix stays a prefix when more text follows.
proof fn lemma_prefix_extends(a: Seq<char>, b: Seq<char>, p: Seq<char>)
    requires
        has_prefix(a, p),
    ensures
        has_prefix(a + b, p),
{
    assert((a + b).subrange(0, p.len() as int) =~= a.subrange(0, p.len() as int));
}

/// Law (escaped text is unambiguous): every `&` in escaped text begins one of
/// the five entities.
pub proof fn law_every_amp_begins_entity(s: Seq<char>)
    ensures
        forall|i: int|
            0 <= i < html_escaped(s).len() && html_escaped(s)[i] == '&' ==> #[trigger] entity_at(
                html_escaped(s),
                i,
            ),
    decreases s.len(),
{
    if s.len() > 0 {
        law_every_amp_begins_entity(s.drop_last());
        reveal_strlit("&amp;");
        reveal_strlit("&lt;");
        reveal_strlit("&gt;");
        reveal_strlit("&quot;");
        reveal_strlit("&#39;");
        let p = html_escaped(s.drop_last());
        let e = escape_char(s.last());
        let t = html_escaped(s);
        assert(t == p + e);
        assert forall|i: int| 0 <= i < t.len() && t[i] == '&' implies #[trigger] entity_at(t, i) by {
            if i < p.len() {
                assert(p[i] == t[i]);
                assert(entity_at(p, i));
                let rest = p.subrange(i, p.len() as int);
                assert(t.subrange(i, t.len() as int) =~= rest + e);
                if has_prefix(rest, amp_entity()) {
                    lemma_prefix_extends(rest, e, amp_entity());
                } else if has_prefix(rest, lt_entity()) {
                    lemma_prefix_extends(rest, e, lt_entity());
                } else if has_prefix(rest, gt_entity()) {
                    lemma_prefix_extends(rest, e, gt_entity());
                } else if has_prefix(rest, quot_entity()) {
                    lemma_prefix_extends(rest, e, quot_entity());
                } else {
                    lemma_prefix_extends(rest, e, apos_entity());
                }
            } else {
                let c = s.last();
                assert(t[i] == e[i - p.len()]);
                assert(i == p.len());
                assert(t.subrange(i, t.len() as int) =~= e);
                if c == '&' {
                    assert(e.subrange(0, 5) =~= amp_entity());
                } else if c == '<' {
                    assert(e.subrange(0, 4) =~= lt_entity());
                } else if c == '>' {
                    assert(e.subrange(0, 4) =~= gt_entity());
                } else if c == '"' {
                    assert(e.subrange(0, 6) =~= quot_entity());
                } else {
                    assert(e.subrange(0, 5) =~= apos_entity());
                }
            }
        }
    }
}

/// Law (plain text is left alone): a text without `&`, `<`, `>`, `"` and
/// `'` is its own escape.
pub proof fn law_plain_text_unchanged(s: Seq<char>)
    requires
        forall|i: int| 0 <= i < s.len() ==> !is_escaped_char(#[trigger] s[i]),
    ensures
        html_escaped(s) == s,
    decreases s.len(),
{
    if s.len() > 0 {
        assert(!is_escaped_char(s[s.len() - 1]));
        law_plain_text_unchanged(s.drop_last());
        assert(html_escaped(s) =~= s);
    }
}

/// The first character of `script_safe(s)` is the first character of `s`.
proof fn lemma_script_safe_first(s: Seq<char>)
    requires
        s.len() > 0,
    ensures
        script_safe(s).len() > 0,
        script_safe(s)[0] == s[0],
{
}

/// Law: after `escape_script_close`, the text contains no `</`, so embedded
/// JSON cannot end its `<script>` element early.
pub proof fn law_script_safe_has_no_close_tag(s: Seq<char>)
    ensures
        forall|i: int|
            0 <= i < script_safe(s).len() - 1 ==> !(#[trigger] script_safe(s)[i] == '<'
                && script_safe(s)[i + 1] == '/'),
    decreases s.len(),
{
    let out = script_safe(s);
    if s.len() == 0 {
    } else if s.len() >= 2 && s[0] == '<' && s[1] == '/' {
        let t = s.subrange(2, s.len() as int);
        law_script_safe_has_no_close_tag(t);
        let head = seq!['<', '\\', '/'];
        assert forall|i: int| 0 <= i < out.len() - 1 implies !(#[trigger] out[i] == '<' && out[i
            + 1] == '/') by {
            if i >= 3 {
                assert(out[i] == script_safe(t)[i - 3]);
                assert(out[i + 1] == script_safe(t)[i - 2]);
            } else if i == 2 {
                assert(out[i] == '/');
            } else {
                assert(out[i + 1] == head[i + 1]);
            }
        }
    } else {
        let t = s.drop_first();
        law_script_safe_has_no_close_tag(t);
        assert forall|i: int| 0 <= i < out.len() - 1 implies !(#[trigger] out[i] == '<' && out[i
            + 1] == '/') by {
            if i >= 1 {
                assert(out[i] == script_safe(t)[i - 1]);
                assert(out[i + 1] == script_safe(t)[i]);
            } else {
                if t.len() > 0 {
                    lemma_script_safe_first(t);
                    assert(out[1] == script_safe(t)[0]);
                    assert(t[0] == s[1]);
                } else {
                    assert(script_safe(t).len() == 0);
                }
            }
        }
    }
}

} // verus!
