use kagi_proxy::kagi::client::extract_stream_content;
use kagi_proxy::kagi::html::strip_html;
use kagi_proxy::kagi::StreamEvent;

#[test]
fn strip_html_removes_tags_and_decodes() {
    assert_eq!(strip_html("<p>Hello &amp; welcome</p>"), "Hello & welcome");
    assert_eq!(strip_html("&lt;tag&gt; &quot;q&quot; &#39;s&#39;"), "<tag> \"q\" 's'");
    assert_eq!(strip_html("a&nbsp;b"), "a b");
}

#[test]
fn strip_html_decodes_in_sequence() {
    // `&amp;lt;` becomes `&lt;` in the first pass and `<` in the second.
    assert_eq!(strip_html("&amp;lt;"), "<");
}

#[test]
fn strip_html_trims() {
    assert_eq!(strip_html("  <b>bold</b> \n "), "bold");
    assert_eq!(strip_html(" \t "), "");
}

#[test]
fn strip_html_drops_details() {
    assert_eq!(
        strip_html("<details><summary>Thinking</summary>hmm</details><p>Answer</p>"),
        "Answer"
    );
    assert_eq!(strip_html("<details>never closed"), "");
    // Without an opening block, a stray end tag is just a tag.
    assert_eq!(strip_html("a</details>b"), "ab");
}

#[test]
fn strip_html_keeps_unicode() {
    assert_eq!(strip_html("<p>héllo wörld ✓</p>"), "héllo wörld ✓");
}

fn event(html: Option<&str>, text: Option<&str>) -> StreamEvent {
    StreamEvent {
        html_content: html.map(|s| s.to_string()),
        text: text.map(|s| s.to_string()),
        is_final: None,
        cursor: None,
    }
}

#[test]
fn stream_content_prefers_html() {
    assert_eq!(
        extract_stream_content(&event(Some("<p>Hi</p>"), Some("plain"))),
        Some("Hi".to_string())
    );
    assert_eq!(extract_stream_content(&event(Some(""), Some("plain"))), Some("plain".to_string()));
    assert_eq!(extract_stream_content(&event(Some("<br>"), Some("<i></i>"))), None);
    assert_eq!(extract_stream_content(&event(None, None)), None);
}
