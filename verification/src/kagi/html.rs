//! Turning the HTML fragments that Kagi streams into plain text.
use vstd::prelude::*;
use crate::text::{
    chars_of, find_chars, find_first, is_prefix, lemma_find_from, replace_all, replace_spec,
    slice_chars, string_from_chars, trim_chars, trim_end_spec, trim_spec, trim_start_spec,
    is_white_space, lemma_trim_clean,
};

verus! {

/// The part of `html` that is kept: when it holds a `<details>` block, only
/// what follows the first `</details>` (none when there is no such end tag);
/// otherwise all of it.
pub open spec fn after_details(html: Seq<char>) -> Option<Seq<char>> {
    if find_first(html, "<details>"@) is Some {
        match find_first(html, "</details>"@) {
            Some(e) => Some(html.skip(e + "</details>"@.len())),
            None => None,
        }
    } else {
        Some(html)
    }
}

/// The text kept from `c` and whether the scan ends inside a tag: a `<`
/// opens a tag, a `>` closes one, and any other character outside a tag is
/// kept.
pub open spec fn tag_scan(c: Seq<char>) -> (Seq<char>, bool)
    decreases c.len(),
{
    if c.len() == 0 {
        (seq![], false)
    } else {
        let (out, in_tag) = tag_scan(c.drop_last());
        let ch = c.last();
        if ch == '<' {
            (out, true)
        } else if ch == '>' {
            (out, false)
        } else if !in_tag {
            (out.push(ch), in_tag)
        } else {
            (out, in_tag)
        }
    }
}

/// `c` without its tags.
pub open spec fn drop_tags_spec(c: Seq<char>) -> Seq<char> {
    tag_scan(c).0
}

/// The six entities decoded, one after the other, in this order.
pub open spec fn decode_entities_spec(s: Seq<char>) -> Seq<char> {
    let s1 = replace_spec(s, "&amp;"@, "&"@);
    let s2 = replace_spec(s1, "&lt;"@, "<"@);
    let s3 = replace_spec(s2, "&gt;"@, ">"@);
    let s4 = replace_spec(s3, "&quot;"@, "\""@);
    let s5 = replace_spec(s4, "&#39;"@, "'"@);
    replace_spec(s5, "&nbsp;"@, " "@)
}

/// The plain text of an HTML fragment.
pub open spec fn strip_html_spec(html: Seq<char>) -> Seq<char> {
    match after_details(html) {
        None => seq![],
        Some(c) => trim_spec(decode_entities_spec(drop_tags_spec(c))),
    }
}

/// The text `strip_html` gives never starts or ends with white space.
pub proof fn lemma_strip_html_trimmed(html: Seq<char>)
    ensures
        strip_html_spec(html).len() > 0 ==> !is_white_space(strip_html_spec(html)[0])
            && !is_white_space(strip_html_spec(html).last()),
{
    match after_details(html) {
        Some(c) => lemma_trim_clean(decode_entities_spec(drop_tags_spec(c))),
        None => {},
    }
}

/// A `<details>` block that never ends hides the whole fragment.
pub proof fn lemma_unclosed_details_hides_all(html: Seq<char>)
    requires
        find_first(html, "<details>"@) is Some,
        find_first(html, "</details>"@) is None,
    ensures
        strip_html_spec(html) == Seq::<char>::empty(),
{
}

/// Inside a tag, text without `<` or `>` keeps the scan where it was and
/// inside the tag.
proof fn lemma_tag_body_dropped(p: Seq<char>, t: Seq<char>)
    requires
        forall|i: int| 0 <= i < t.len() ==> #[trigger] t[i] != '<' && t[i] != '>',
    ensures
        tag_scan(p.push('<') + t) == (tag_scan(p).0, true),
    decreases t.len(),
{
    if t.len() == 0 {
        assert(p.push('<') + t =~= p.push('<'));
        assert(p.push('<').drop_last() =~= p);
    } else {
        let t0 = t.drop_last();
        assert forall|i: int| 0 <= i < t0.len() implies #[trigger] t0[i] != '<' && t0[i] != '>' by {
            assert(t0[i] == t[i]);
        }
        lemma_tag_body_dropped(p, t0);
        assert((p.push('<') + t).drop_last() =~= p.push('<') + t0);
        assert((p.push('<') + t).last() == t[t.len() - 1]);
    }
}

/// Tags leave nothing behind: wherever the scan stands outside a tag, a tag
/// `<t>` whose text `t` holds neither `<` nor `>` can be taken out of the
/// fragment without changing what is kept, before or after it.
pub proof fn lemma_tag_dropped(p: Seq<char>, t: Seq<char>, s: Seq<char>)
    requires
        !tag_scan(p).1,
        forall|i: int| 0 <= i < t.len() ==> #[trigger] t[i] != '<' && t[i] != '>',
    ensures
        tag_scan(p.push('<') + t.push('>') + s) == tag_scan(p + s),
        drop_tags_spec(p.push('<') + t.push('>') + s) == drop_tags_spec(p + s),
    decreases s.len(),
{
    if s.len() == 0 {
        let w = p.push('<') + t;
        lemma_tag_body_dropped(p, t);
        assert(p.push('<') + t.push('>') + s =~= w.push('>'));
        assert(w.push('>').drop_last() =~= w);
        assert(p + s =~= p);
    } else {
        let s0 = s.drop_last();
        lemma_tag_dropped(p, t, s0);
        assert((p.push('<') + t.push('>') + s).drop_last() =~= p.push('<') + t.push('>') + s0);
        assert((p + s).drop_last() =~= p + s0);
        assert((p.push('<') + t.push('>') + s).last() == s.last());
        assert((p + s).last() == s.last());
    }
}

/// Text outside tags is kept as it is: a fragment without `<` or `>` loses
/// nothing.
pub proof fn lemma_plain_text_kept(c: Seq<char>)
    requires
        forall|i: int| 0 <= i < c.len() ==> #[trigger] c[i] != '<' && c[i] != '>',
    ensures
        tag_scan(c) == (c, false),
        drop_tags_spec(c) == c,
    decreases c.len(),
{
    if c.len() > 0 {
        let c0 = c.drop_last();
        assert forall|i: int| 0 <= i < c0.len() implies #[trigger] c0[i] != '<' && c0[i] != '>' by {
            assert(c0[i] == c[i]);
        }
        lemma_plain_text_kept(c0);
        assert(c0.push(c.last()) =~= c);
    }
}

/// An empty fragment has no text.
pub proof fn lemma_strip_html_empty()
    ensures
        strip_html_spec(Seq::<char>::empty()) == Seq::<char>::empty(),
{
    reveal_strlit("<details>");
    let e = Seq::<char>::empty();
    assert(after_details(e) == Some(e));
    assert(drop_tags_spec(e) == e);
    assert(decode_entities_spec(e) =~= e);
    assert(trim_spec(e) =~= e);
}

/// Replacing a pattern whose first character `s` never holds leaves `s` as
/// it is.
proof fn lemma_replace_absent(s: Seq<char>, p: Seq<char>, r: Seq<char>)
    requires
        p.len() > 0,
        forall|i: int| 0 <= i < s.len() ==> #[trigger] s[i] != p[0],
    ensures
        replace_spec(s, p, r) == s,
    decreases s.len(),
{
    if s.len() > 0 {
        if is_prefix(p, s) {
            assert(s.subrange(0, p.len() as int)[0] == s[0]);
        }
        let t = s.drop_first();
        assert forall|i: int| 0 <= i < t.len() implies #[trigger] t[i] != p[0] by {
            assert(t[i] == s[i + 1]);
        }
        lemma_replace_absent(t, p, r);
        assert(seq![s[0]] + t =~= s);
    }
}

/// Plain text passes through untouched: a fragment without `<`, `>` or `&`
/// that neither starts nor ends with white space is its own plain text.
pub proof fn lemma_plain_fragment_kept(c: Seq<char>)
    requires
        forall|i: int| 0 <= i < c.len() ==> #[trigger] c[i] != '<' && c[i] != '>' && c[i] != '&',
        c.len() > 0 ==> !is_white_space(c[0]) && !is_white_space(c.last()),
    ensures
        strip_html_spec(c) == c,
{
    reveal_strlit("<details>");
    reveal_strlit("&amp;");
    reveal_strlit("&lt;");
    reveal_strlit("&gt;");
    reveal_strlit("&quot;");
    reveal_strlit("&#39;");
    reveal_strlit("&nbsp;");
    lemma_find_from(c, "<details>"@, 0);
    if let Some(i) = find_first(c, "<details>"@) {
        assert(c.subrange(i, i + 9)[0] == c[i]);
        assert("<details>"@[0] == '<');
        assert(false);
    }
    assert(after_details(c) == Some(c));
    lemma_plain_text_kept(c);
    lemma_replace_absent(c, "&amp;"@, "&"@);
    lemma_replace_absent(c, "&lt;"@, "<"@);
    lemma_replace_absent(c, "&gt;"@, ">"@);
    lemma_replace_absent(c, "&quot;"@, "\""@);
    lemma_replace_absent(c, "&#39;"@, "'"@);
    lemma_replace_absent(c, "&nbsp;"@, " "@);
    assert(decode_entities_spec(c) == c);
    assert(trim_start_spec(c) == c);
    assert(trim_end_spec(c) == c);
}

/// Removes the tags of `c`.
pub fn drop_tags(c: &[char]) -> (out: Vec<char>)
    ensures
        out@ == drop_tags_spec(c@),
{
    let mut out: Vec<char> = Vec::new();
    let mut in_tag = false;
    let mut i: usize = 0;
    while i < c.len()
        invariant
            i <= c@.len(),
            tag_scan(c@.take(i as int)) == (out@, in_tag),
        decreases c@.len() - i,
    {
        assert(c@.take(i + 1).drop_last() =~= c@.take(i as int));
        let ch = c[i];
        if ch == '<' {
            in_tag = true;
        } else if ch == '>' {
            in_tag = false;
        } else if !in_tag {
            out.push(ch);
        }
        i = i + 1;
    }
    assert(c@.take(i as int) =~= c@);
    out
}

/// Replaces the literal pattern `p` by `r` in `s`.
fn replace_literal(s: &[char], p: &str, r: &str) -> (out: Vec<char>)
    requires
        p@.len() > 0,
    ensures
        out@ == replace_spec(s@, p@, r@),
{
    let pv = chars_of(p);
    let rv = chars_of(r);
    replace_all(s, &pv, &rv)
}

/// Decodes `&amp;`, `&lt;`, `&gt;`, `&quot;`, `&#39;` and `&nbsp;`.
pub fn decode_entities(s: &[char]) -> (out: Vec<char>)
    ensures
        out@ == decode_entities_spec(s@),
{
    proof {
        reveal_strlit("&amp;");
        reveal_strlit("&lt;");
        reveal_strlit("&gt;");
        reveal_strlit("&quot;");
        reveal_strlit("&#39;");
        reveal_strlit("&nbsp;");
    }
    let s1 = replace_literal(s, "&amp;", "&");
    let s2 = replace_literal(&s1, "&lt;", "<");
    let s3 = replace_literal(&s2, "&gt;", ">");
    let s4 = replace_literal(&s3, "&quot;", "\"");
    let s5 = replace_literal(&s4, "&#39;", "'");
    replace_literal(&s5, "&nbsp;", " ")
}

/// The plain text of the HTML fragment `html`: a `<details>` block and what
/// precedes its end are dropped (all of the text, when the block never
/// ends), tags are removed, six entities decoded and white space trimmed.
pub fn strip_html(html: &str) -> (text: String)
    ensures
        text@ == strip_html_spec(html@),
{
    let chars = chars_of(html);
    let open = chars_of("<details>");
    let close = chars_of("</details>");
    proof {
        reveal_strlit("</details>");
    }
    let content: Vec<char> = if find_chars(&chars, &open).is_some() {
        match find_chars(&chars, &close) {
            Some(e) => {
                proof {
                    lemma_find_from(chars@, close@, 0);
                    assert(close@.len() == 10);
                    assert(e + close@.len() <= chars@.len());
                }
                let n = chars.len();
                slice_chars(&chars, e + 10, n)
            },
            None => {
                return String::new();
            },
        }
    } else {
        chars
    };
    proof {
        assert(after_details(html@) == Some(content@)) by {
            if find_first(html@, "<details>"@) is Some {
                let e = find_first(html@, "</details>"@)->0;
                assert(content@ =~= html@.skip(e + 10));
            }
        }
    }
    let without_tags = drop_tags(&content);
    let decoded = decode_entities(&without_tags);
    let trimmed = trim_chars(&decoded);
    string_from_chars(&trimmed)
}

} // verus!
