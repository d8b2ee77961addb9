use glpi_mcp::markdown::{cell, escape_cell, field_table, strip_html, table, truncate};

#[test]
fn strip_html_decodes_entities_and_converts_block_tags_to_newlines() {
    let input = "&#60;p&#62;&#60;span&#62;hello&#60;/span&#62;&#60;br&#62;&#60;span&#62;world&#60;/span&#62;&#60;/p&#62;";
    assert_eq!(strip_html(input), "hello\nworld");
}

#[test]
fn strip_html_drops_inline_tags_without_adding_newlines() {
    assert_eq!(strip_html("<strong>bold</strong> and <em>italic</em>"), "bold and italic");
}

#[test]
fn truncate_appends_ellipsis_only_when_over_limit() {
    assert_eq!(truncate("hello", 10), "hello");
    assert_eq!(truncate("hello world", 5), "hello…");
}

#[test]
fn escape_cell_neutralizes_pipes_and_newlines() {
    assert_eq!(escape_cell("a|b\nc"), "a\\|b c");
}

#[test]
fn table_renders_header_separator_and_rows() {
    let rendered = table(&["ID", "Name"], &[vec!["1".into(), "Alice".into()]]);
    assert_eq!(rendered, "| ID | Name |\n|---|---|\n| 1 | Alice |");
}

#[test]
fn escaped_cells_stay_on_one_line() {
    let e = escape_cell("a\r\nb\nc\r");
    assert!(!e.contains('\n'));
    assert!(!e.contains('\r'));
    assert_eq!(e, "a b c");
}

#[test]
fn truncate_counts_chars_not_bytes() {
    assert_eq!(truncate("éééé", 4), "éééé");
    assert_eq!(truncate("ééééé", 4), "éééé…");
    assert_eq!(truncate("", 0), "");
}

#[test]
fn strip_html_decodes_named_entities_and_collapses_blank_lines() {
    assert_eq!(strip_html("a&amp;b &quot;q&quot; &#39;s&#39;&nbsp;!"), "a&b \"q\" 's' !");
    assert_eq!(strip_html("&lt;b&gt;x&lt;/b&gt; &#x41;&#65;"), "x AA");
    assert_eq!(strip_html("<p>one</p><p></p><p></p><p>two</p>"), "one\n\ntwo");
    assert_eq!(strip_html("  <div>x</div>  "), "x");
}

#[test]
fn field_table_escapes_values() {
    let t = field_table(&[("Name", "a|b".to_string()), ("Count", "3".to_string())]);
    assert_eq!(t, "| Field | Value |\n|---|---|\n| Name | a\\|b |\n| Count | 3 |");
}

#[test]
fn cell_strips_escapes_and_truncates() {
    assert_eq!(cell("<b>a|b</b>", 2), "a\\…");
    assert_eq!(cell("<p>x</p>", 10), "x");
}

#[test]
fn self_closing_block_tags_become_newlines() {
    assert_eq!(strip_html("a<br/>b"), "a\nb");
    assert_eq!(strip_html("a<br />b"), "a\nb");
    assert_eq!(strip_html("a<BR/>b"), "a\nb");
    assert_eq!(strip_html("x<div>y</div>"), "x\ny");
    assert_eq!(strip_html("a<span/>b"), "ab");
}

#[test]
fn whitespace_is_exactly_what_std_calls_whitespace() {
    for c in (0..=0x10FFFFu32).filter_map(char::from_u32) {
        assert_eq!(glpi_mcp::text::is_whitespace(c), c.is_whitespace(), "{:?}", c);
    }
}
