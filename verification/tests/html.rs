use realmdex::html::{escape_script_close, html_escape, html_shell};

#[test]
fn escapes_all_special_characters() {
    assert_eq!(html_escape("a&b<c>d\"e'f"), "a&amp;b&lt;c&gt;d&quot;e&#39;f");
    assert_eq!(html_escape("&lt;"), "&amp;lt;");
    assert_eq!(html_escape(""), "");
    assert_eq!(html_escape("plain"), "plain");
}

#[test]
fn escaped_text_has_no_markup() {
    let s = html_escape("<script>alert('x')</script>");
    assert!(!s.contains('<') && !s.contains('>') && !s.contains('\'') && !s.contains('"'));
}

#[test]
fn script_close_is_broken() {
    assert_eq!(escape_script_close("{\"a\":\"</script>\"}"), "{\"a\":\"<\\/script>\"}");
    assert_eq!(escape_script_close("<</</"), "<<\\/<\\/");
    assert_eq!(escape_script_close("</"), "<\\/");
    assert_eq!(escape_script_close("<"), "<");
    assert!(!escape_script_close("x</y</</z").contains("</"));
}

#[test]
fn shell_wraps_content() {
    let page = html_shell("A & B", "<meta x>", "<main/>", "initial-data", "{}", "run();");
    assert_eq!(
        page,
        "<!DOCTYPE html><html lang=\"en\"><head><meta charset=\"utf-8\"><meta name=\"viewport\" content=\"width=device-width,initial-scale=1\"><meta x><title>A &amp; B</title><link rel=\"icon\" type=\"image/x-icon\" href=\"/favicon.ico\"><link rel=\"stylesheet\" href=\"/styles/index.css\"></head><body><main/><script id=\"initial-data\" type=\"application/json\">{}</script><script>run();</script></body></html>"
    );
}

#[test]
fn plain_text_is_its_own_escape() {
    let plain = "Realm of the Mad God: 85 players online (EU/US) #1";
    assert_eq!(html_escape(plain), plain);
}

#[test]
fn escape_keeps_every_character_recoverable() {
    let s = "&amp; <&lt;> \"'&#39;";
    let e = html_escape(s);
    assert_eq!(e, "&amp;amp; &lt;&amp;lt;&gt; &quot;&#39;&amp;#39;");
    let back = e
        .replace("&lt;", "<")
        .replace("&gt;", ">")
        .replace("&quot;", "\"")
        .replace("&#39;", "'")
        .replace("&amp;", "&");
    assert_eq!(back, s);
}
