//! Expansion of `@path` / `@url` references in user input, and the plain-text
//! rendering of fetched HTML.
use vstd::prelude::*;
use crate::text::{
    ascii_lower, ascii_lower_all, ends_with, from_chars, has_prefix_str, has_suffix, join,
    join_chars, push_chars, push_decimal, replace_all, replace_chars, split_whitespace, split_ws,
    starts_with, to_ascii_lower, to_chars, decimal, vv,
};

verus! {

broadcast use vstd::string::group_string_axioms;

/// Bytes of one reference kept before it is cut.
pub const MAX_BYTES: usize = 32 * 1024;

// ─── HTML to text ───

/// Tag stripping state: text kept, inside a tag, inside a script or style
/// element, and the characters of the current tag or element body.
pub type TagState = (Seq<char>, bool, bool, Seq<char>);

pub open spec fn tag_step(st: TagState, ch: char) -> TagState {
    let (out, in_tag, in_script, buf) = st;
    if in_script {
        let b = buf.push(ch);
        if ends_with(b, "</script>"@) || ends_with(b, "</style>"@) {
            (out, in_tag, false, seq![])
        } else {
            (out, in_tag, true, b)
        }
    } else if ch == '<' {
        (out, true, in_script, seq![])
    } else if in_tag {
        let b = buf.push(ch);
        if ch == '>' {
            let lower = ascii_lower_all(b);
            (out, false, starts_with(lower, "script"@) || starts_with(lower, "style"@), seq![])
        } else {
            (out, true, in_script, b)
        }
    } else {
        (out.push(ch), in_tag, in_script, buf)
    }
}

pub open spec fn tag_scan(s: Seq<char>) -> TagState
    decreases s.len(),
{
    if s.len() == 0 {
        (seq![], false, false, seq![])
    } else {
        tag_step(tag_scan(s.drop_last()), s.last())
    }
}

/// The common HTML entities decoded, in the order `&nbsp;`, `&amp;`, `&lt;`,
/// `&gt;`, `&quot;`, `&#39;`.
pub open spec fn decode_entities(s: Seq<char>) -> Seq<char> {
    let a = replace_all(s, "&nbsp;"@, " "@);
    let b = replace_all(a, "&amp;"@, "&"@);
    let c = replace_all(b, "&lt;"@, "<"@);
    let d = replace_all(c, "&gt;"@, ">"@);
    let e = replace_all(d, "&quot;"@, "\""@);
    replace_all(e, "&#39;"@, "'"@)
}

/// HTML to plain text: tags and script/style elements removed, common entities
/// decoded, runs of white space collapsed to one space and trimmed.
pub open spec fn spec_strip_html(html: Seq<char>) -> Seq<char> {
    join(split_ws(decode_entities(tag_scan(html).0)), " "@)
}

fn replace_str(s: Vec<char>, from: &str, to: &str) -> (r: Vec<char>)
    requires
        from@.len() > 0,
    ensures
        r@ == replace_all(s@, from@, to@),
{
    let f = to_chars(from);
    let t = to_chars(to);
    replace_chars(s.as_slice(), f.as_slice(), t.as_slice())
}

fn lower_chars(v: &Vec<char>) -> (r: Vec<char>)
    ensures
        r@ == ascii_lower_all(v@),
{
    let mut out: Vec<char> = Vec::new();
    let mut i: usize = 0;
    while i < v.len()
        invariant
            i <= v.len(),
            out@.len() == i,
            forall|k: int| 0 <= k < i ==> out@[k] == ascii_lower(v@[k]),
        decreases v.len() - i,
    {
        out.push(to_ascii_lower(v[i]));
        i = i + 1;
    }
    assert(out@ =~= ascii_lower_all(v@));
    out
}

/// Minimal HTML → plain text: removes `<...>` tags and script/style bodies,
/// decodes common entities, and collapses white space.
pub fn strip_html(html: &str) -> (r: String)
    ensures
        r@ == spec_strip_html(html@),
{
    let chars = to_chars(html);
    let mut out: Vec<char> = Vec::new();
    let mut in_tag = false;
    let mut in_script = false;
    let mut buf: Vec<char> = Vec::new();
    let end_script = to_chars("</script>");
    let end_style = to_chars("</style>");
    let mut i: usize = 0;
    while i < chars.len()
        invariant
            i <= chars.len(),
            end_script@ == "</script>"@,
            end_style@ == "</style>"@,
            (out@, in_tag, in_script, buf@) == tag_scan(chars@.take(i as int)),
        decreases chars.len() - i,
    {
        let ch = chars[i];
        assert(chars@.take(i + 1).drop_last() == chars@.take(i as int));
        if in_script {
            buf.push(ch);
            if has_suffix(buf.as_slice(), end_script.as_slice()) || has_suffix(
                buf.as_slice(),
                end_style.as_slice(),
            ) {
                in_script = false;
                buf = Vec::new();
            }
        } else if ch == '<' {
            in_tag = true;
            buf = Vec::new();
        } else if in_tag {
            buf.push(ch);
            if ch == '>' {
                in_tag = false;
                let lower = lower_chars(&buf);
                if has_prefix_str(lower.as_slice(), "script") || has_prefix_str(
                    lower.as_slice(),
                    "style",
                ) {
                    in_script = true;
                }
                buf = Vec::new();
            }
        } else {
            out.push(ch);
        }
        i = i + 1;
    }
    assert(chars@.take(chars.len() as int) == chars@);
    proof {
        reveal_strlit("&nbsp;");
        reveal_strlit("&amp;");
        reveal_strlit("&lt;");
        reveal_strlit("&gt;");
        reveal_strlit("&quot;");
        reveal_strlit("&#39;");
    }
    let a = replace_str(out, "&nbsp;", " ");
    let b = replace_str(a, "&amp;", "&");
    let c = replace_str(b, "&lt;", "<");
    let d = replace_str(c, "&gt;", ">");
    let e = replace_str(d, "&quot;", "\"");
    let f = replace_str(e, "&#39;", "'");
    let words = split_whitespace(f.as_slice());
    assert(vv(words@) =~= split_ws(f@));
    let sp = to_chars(" ");
    let joined = join_chars(&words, sp.as_slice());
    from_chars(joined.as_slice())
}

// ─── @-reference expansion ───

/// `split_whitespace`: the segments of the input.
pub fn split_with_separators(input: &str) -> (r: Vec<String>)
    ensures
        r@.map_values(|s: String| s@) == split_ws(input@),
{
    let chars = to_chars(input);
    let words = split_whitespace(chars.as_slice());
    let mut out: Vec<String> = Vec::new();
    let mut i: usize = 0;
    while i < words.len()
        invariant
            i <= words.len(),
            words@.len() == split_ws(input@).len(),
            forall|k: int| 0 <= k < words@.len() ==> #[trigger] words@[k]@ == split_ws(input@)[k],
            out@.len() == i,
            forall|k: int| 0 <= k < i ==> #[trigger] out@[k]@ == split_ws(input@)[k],
        decreases words.len() - i,
    {
        out.push(from_chars(words[i].as_slice()));
        i = i + 1;
    }
    assert(out@.map_values(|s: String| s@) =~= split_ws(input@));
    out
}

/// How a reference token is resolved.
#[derive(Debug, Clone, Copy, PartialEq, Eq, Structural)]
pub enum RefSource {
    Url,
    File,
}

pub open spec fn spec_ref_source(token: Seq<char>) -> RefSource {
    if starts_with(token, "http://"@) || starts_with(token, "https://"@) {
        RefSource::Url
    } else {
        RefSource::File
    }
}

/// A web address (`http://…` or `https://…`) is fetched, whatever follows the
/// scheme; a token that does not begin with `http` is read as a file.
pub proof fn law_ref_source(rest: Seq<char>, t: Seq<char>)
    ensures
        spec_ref_source("http://"@ + rest) == RefSource::Url,
        spec_ref_source("https://"@ + rest) == RefSource::Url,
        !starts_with(t, "http"@) ==> spec_ref_source(t) == RefSource::File,
{
    reveal_strlit("http://");
    reveal_strlit("https://");
    reveal_strlit("http");
    assert(("http://"@ + rest).take(7) =~= "http://"@);
    assert(("https://"@ + rest).take(8) =~= "https://"@);
    if !starts_with(t, "http"@) {
        if starts_with(t, "http://"@) {
            assert(t.take(4) =~= "http://"@.take(4));
            assert("http://"@.take(4) =~= "http"@);
        }
        if starts_with(t, "https://"@) {
            assert(t.take(4) =~= "https://"@.take(4));
            assert("https://"@.take(4) =~= "http"@);
        }
    }
}

/// `http://` and `https://` tokens are fetched; anything else is read as a file.
pub fn resolve(token: &str) -> (r: RefSource)
    ensures
        r == spec_ref_source(token@),
        forall|rest: Seq<char>|
            (token@ == "http://"@ + rest || token@ == "https://"@ + rest) ==> r == RefSource::Url,
        !starts_with(token@, "http"@) ==> r == RefSource::File,
{
    proof {
        law_ref_source(seq![], token@);
        assert forall|rest: Seq<char>|
            (token@ == "http://"@ + rest || token@ == "https://"@ + rest) implies spec_ref_source(
                token@,
            ) == RefSource::Url by {
            law_ref_source(rest, token@);
        }
    }
    let t = to_chars(token);
    if has_prefix_str(t.as_slice(), "http://") || has_prefix_str(t.as_slice(), "https://") {
        RefSource::Url
    } else {
        RefSource::File
    }
}

/// The token a segment refers to: the text after a leading `@`, when there is
/// some.
pub open spec fn ref_token(seg: Seq<char>) -> Option<Seq<char>> {
    if seg.len() > 1 && seg[0] == '@' {
        Some(seg.drop_first())
    } else {
        None
    }
}

/// The reference token of a segment, if it has one.
pub fn reference_token(seg: &str) -> (r: Option<String>)
    ensures
        match ref_token(seg@) {
            Some(t) => r matches Some(s) && s@ == t,
            None => r is None,
        },
{
    let v = to_chars(seg);
    if v.len() > 1 && v[0] == '@' {
        let rest = crate::text::slice_from(v.as_slice(), 1);
        assert(rest@ =~= seg@.drop_first());
        Some(from_chars(rest.as_slice()))
    } else {
        None
    }
}

/// One expanded segment: a resolved reference becomes its content between
/// newlines; anything else stays as it is.
pub open spec fn expand_segment(seg: Seq<char>, resolved: Option<String>) -> Seq<char> {
    match (ref_token(seg), resolved) {
        (Some(_), Some(c)) => seq!['\n'] + c@ + seq!['\n'],
        _ => seg,
    }
}

pub open spec fn expand_all(segs: Seq<Seq<char>>, resolved: Seq<Option<String>>) -> Seq<char>
    decreases segs.len(),
{
    if segs.len() == 0 {
        seq![]
    } else if segs.len() == 1 {
        expand_segment(segs[0], resolved[0])
    } else {
        expand_all(segs.drop_last(), resolved) + seq![' '] + expand_segment(
            segs.last(),
            resolved[segs.len() - 1],
        )
    }
}

/// Joins the segments with single spaces, each reference replaced by the content
/// it resolved to (`resolved[i]` for segment `i`; `None` keeps the token).
pub fn assemble_expansion(segments: &Vec<String>, resolved: &Vec<Option<String>>) -> (r: String)
    requires
        resolved@.len() == segments@.len(),
    ensures
        r@ == expand_all(segments@.map_values(|s: String| s@), resolved@),
{
    let ghost sv = segments@.map_values(|s: String| s@);
    let mut out = String::new();
    let mut i: usize = 0;
    while i < segments.len()
        invariant
            i <= segments.len(),
            resolved@.len() == segments@.len(),
            sv == segments@.map_values(|s: String| s@),
            out@ == expand_all(sv.take(i as int), resolved@),
        decreases segments.len() - i,
    {
        assert(sv.take(i + 1).drop_last() == sv.take(i as int));
        if i > 0 {
            crate::text::push_char(&mut out, ' ');
        }
        let seg = &segments[i];
        match (reference_token(seg.as_str()), &resolved[i]) {
            (Some(_), Some(content)) => {
                crate::text::push_char(&mut out, '\n');
                out.append(content.as_str());
                crate::text::push_char(&mut out, '\n');
            },
            _ => {
                out.append(seg.as_str());
            },
        }
        i = i + 1;
        proof {
            if i == 1 {
                assert(out@ =~= expand_segment(sv[0], resolved@[0]));
            } else {
                assert(out@ =~= expand_all(sv.take(i - 1), resolved@) + seq![' '] + expand_segment(
                    sv[i - 1],
                    resolved@[i - 1],
                ));
            }
        }
    }
    assert(sv.take(segments.len() as int) == sv);
    out
}

/// The block a resolved reference becomes: `<ref src="...">`, the text, a note
/// with the original size when it was cut, and `</ref>`.
pub open spec fn ref_block_text(src: Seq<char>, text: Seq<char>, original: Option<usize>) -> Seq<
    char,
> {
    let note = match original {
        Some(n) => "\n...[truncated, original "@ + decimal(n as nat) + " bytes]"@,
        None => seq![],
    };
    "<ref src=\""@ + src + "\">\n"@ + text + note + "\n</ref>"@
}

pub fn ref_block(src: &str, text: &str, original: Option<usize>) -> (r: String)
    ensures
        r@ == ref_block_text(src@, text@, original),
{
    let mut out = String::from_str("<ref src=\"");
    out.append(src);
    out.append("\">\n");
    out.append(text);
    if let Some(n) = original {
        out.append("\n...[truncated, original ");
        push_decimal(&mut out, n as u64);
        out.append(" bytes]");
    }
    out.append("\n</ref>");
    out
}

} // verus!
