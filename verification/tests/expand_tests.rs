use cctraveler::expand::{
    assemble_expansion, ref_block, reference_token, resolve, split_with_separators, strip_html,
    RefSource,
};

#[test]
fn strip_html_basic() {
    assert_eq!(
        strip_html("<p>hello <b>world</b></p><script>x()</script>"),
        "hello world"
    );
}

#[test]
fn strip_html_decodes_entities_and_collapses_space() {
    assert_eq!(strip_html("<div>a &amp; b</div>\n\n<p>c</p>"), "a & b c");
    assert_eq!(strip_html("<style>p{}</style>x &lt;y&gt;"), "x <y>");
}

#[test]
fn segments_split_on_whitespace() {
    let parts = split_with_separators("  see  @a.txt\tplease ");
    assert_eq!(parts, vec!["see".to_string(), "@a.txt".to_string(), "please".to_string()]);
}

#[test]
fn passthrough_without_references() {
    let segs = split_with_separators("hello world");
    let resolved: Vec<Option<String>> = segs.iter().map(|_| None).collect();
    assert_eq!(assemble_expansion(&segs, &resolved), "hello world");
}

#[test]
fn resolved_reference_is_inlined_and_unresolved_kept() {
    let segs = split_with_separators("see @a.txt and @b.txt");
    let resolved = vec![None, Some("<ref>".to_string()), None, None];
    assert_eq!(assemble_expansion(&segs, &resolved), "see \n<ref>\n and @b.txt");
}

#[test]
fn reference_tokens() {
    assert_eq!(reference_token("@notes.md"), Some("notes.md".to_string()));
    assert_eq!(reference_token("@"), None);
    assert_eq!(reference_token("plain"), None);
    assert!(matches!(resolve("https://example.com"), RefSource::Url));
    assert!(matches!(resolve("http://example.com"), RefSource::Url));
    assert!(matches!(resolve("./notes.md"), RefSource::File));
}

#[test]
fn reference_block_notes_truncation() {
    assert_eq!(ref_block("a.txt", "hi", None), "<ref src=\"a.txt\">\nhi\n</ref>");
    assert_eq!(
        ref_block("a.txt", "hi", Some(40000)),
        "<ref src=\"a.txt\">\nhi\n...[truncated, original 40000 bytes]\n</ref>"
    );
}
