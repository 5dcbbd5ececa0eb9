use bds_ui::views::documentation::{
    check_due, external_images_as_links, github_slug, internal_anchor, is_table_delimiter,
    load_embedded_document, parse_table, rewrite_links, rewritten_link, table_cells, DocumentLoad,
    DocumentStatus, DocumentationKind, DocumentationState, API_DOCUMENTATION_URL,
};

#[test]
fn missing_documents_fall_back_to_the_bundled_copy() {
    let load = load_embedded_document(DocumentLoad::Missing { signature: 7 }, "# Bundled");
    assert!(matches!(&load, DocumentLoad::Ready { source, signature: 7 } if source == "# Bundled"));
    assert_eq!(load.signature(), 7);
    let broken = load_embedded_document(
        DocumentLoad::Malformed { signature: 3, error: "invalid UTF-8".into() },
        "# Bundled",
    );
    assert!(matches!(broken, DocumentLoad::Malformed { signature: 3, .. }));
}

#[test]
fn tables_keep_union_type_cells() {
    let lines = ["| Type | Meaning |", "| --- | --- |", "| `string | nil` | optional |", "", "after"];
    let (headers, rows, consumed) = parse_table(&lines).unwrap();
    assert_eq!(headers, vec!["Type", "Meaning"]);
    assert_eq!(rows, vec![vec![String::from("string | nil"), String::from("optional")]]);
    assert_eq!(consumed, 3);
}

#[test]
fn safe_document_tables_keep_their_cells() {
    let lines = ["| Name | Value |", "| --- | --- |", "| one | `two` |"];
    let (headers, rows, consumed) = parse_table(&lines).unwrap();
    assert_eq!(headers, vec!["Name", "Value"]);
    assert_eq!(rows, vec![vec![String::from("one"), String::from("two")]]);
    assert_eq!(consumed, 3);
}

#[test]
fn text_without_a_delimiter_row_is_no_table() {
    assert!(parse_table(&["| a | b |", "| c | d |"]).is_none());
    assert!(parse_table(&["no pipes", "| --- |"]).is_none());
    assert!(parse_table(&["| a |"]).is_none());
    assert!(is_table_delimiter("| :--- | ---: |"));
    assert!(!is_table_delimiter("| text | --- |"));
    assert_eq!(table_cells("| **Bold** | __x__ |"), vec!["Bold", "x"]);
}

#[test]
fn internal_links_resolve_to_anchors() {
    assert_eq!(internal_anchor("#details"), Some("details".to_string()));
    assert_eq!(internal_anchor("TYPES.md"), Some("lua-api-types".to_string()));
    assert_eq!(internal_anchor("TYPES.md#item"), Some("item".to_string()));
    assert_eq!(internal_anchor("examples/"), Some("lua-examples".to_string()));
    assert_eq!(internal_anchor("https://example.com"), None);
}

#[test]
fn headings_get_github_slugs() {
    assert_eq!(github_slug("RuDS Lua API Reference"), "ruds-lua-api-reference");
    assert_eq!(github_slug("  What's new?  "), "whats-new");
    assert_eq!(github_slug("snake_case - ok"), "snake_case---ok");
}

#[test]
fn links_point_into_the_app_and_other_links_stay() {
    let source = "# Start\n\n[Jump](#details) [API](API.md) [Web](https://example.com)";
    let rewritten = rewrite_links(source);
    assert!(rewritten.contains("[Jump](https://ruds.invalid/document#details)"));
    assert!(rewritten.contains(&format!("[API]({API_DOCUMENTATION_URL})")));
    assert!(rewritten.contains("[Web](https://example.com)"));
    assert_eq!(rewritten_link("[x](y.md)", "[x](", "y.md", ")"), "[x](y.md)");
    assert_eq!(
        rewritten_link("[t](TYPES.md)", "[t](", "TYPES.md", ")"),
        "[t](https://ruds.invalid/document#lua-api-types)"
    );
}

#[test]
fn external_images_become_safe_links_before_gfm_rendering() {
    let safe = external_images_as_links("![diagram](https://example.com/a.png)");
    assert_eq!(safe, "[🖼 diagram](https://example.com/a.png)");
    assert_eq!(
        external_images_as_links("![diagram](https://example.com/a.png)"),
        "[🖼 diagram](https://example.com/a.png)"
    );
    assert_eq!(external_images_as_links("![local](media/a.png)"), "![local](media/a.png)");
}

#[test]
fn documentation_state_tracks_loads_and_checks() {
    let mut state = DocumentationState::new(DocumentationKind::Guide);
    assert_eq!(state.status, DocumentStatus::NotLoaded);
    assert!(state.should_check());
    assert_eq!(state.start_loading(), 1);
    assert_eq!(state.status, DocumentStatus::Loading);
    assert!(!state.should_check());
    state.apply(DocumentLoad::Malformed { signature: 9, error: "bad".into() });
    assert_eq!(state.status, DocumentStatus::Malformed);
    assert_eq!(state.error.as_deref(), Some("bad"));
    assert_eq!(state.signature, 9);
    assert!(!state.should_check());
    assert_eq!(state.start_loading(), 2);
    assert!(state.error.is_none());
    state.apply(DocumentLoad::Missing { signature: 1 });
    assert_eq!(state.status, DocumentStatus::Missing);
    state.load_generation = u64::MAX;
    assert_eq!(state.start_loading(), u64::MAX);
}

#[test]
fn checks_are_due_a_second_after_the_last() {
    assert!(check_due(DocumentStatus::Ready, None));
    assert!(!check_due(DocumentStatus::Ready, Some(999)));
    assert!(check_due(DocumentStatus::Ready, Some(1000)));
    assert!(!check_due(DocumentStatus::Loading, None));
}

use bds_ui::views::documentation::{heading_anchors, parse_document, split_lines, DocumentSegment};

#[test]
fn safe_document_parser_keeps_tables_and_navigation_but_never_active_content() {
    let source = "# Start\n\n[Jump](#details) [API](API.md)\n\n| Name | Value |\n| --- | --- |\n| one | `two` |\n\n## Details\n\n<script>alert(1)</script>\n<style>bad</style>";
    let rewritten = rewrite_links(source);
    assert!(rewritten.contains("https://ruds.invalid/document#details"));
    assert!(rewritten.contains(API_DOCUMENTATION_URL));
    // Raw HTML stays inert text of a Markdown segment: the Markdown
    // renderer of the view drops it, and no segment is ever a table of it.
    let parsed = parse_document(source);
    assert!(parsed.segments.iter().any(|segment| matches!(
        segment,
        DocumentSegment::Table { headers, rows }
            if headers == &["Name", "Value"] && rows == &[vec![String::from("one"), String::from("two")]]
    )));
    assert!(parsed.anchors.iter().any(|(slug, _)| slug == "details"));
    assert!(parsed.anchors.iter().any(|(slug, line)| slug == "start" && *line == 0));
    let first = match &parsed.segments[0] {
        DocumentSegment::Markdown(text) => text.clone(),
        _ => panic!("the page starts with Markdown"),
    };
    assert!(first.contains("https://ruds.invalid/document#details"));
    assert!(first.contains(API_DOCUMENTATION_URL));
    assert_eq!(parsed.line_count, 12);
    assert!(parsed.segments.iter().all(|segment| match segment {
        DocumentSegment::Table { headers, rows } => headers
            .iter()
            .chain(rows.iter().flatten())
            .all(|cell| !cell.contains("<script>") && !cell.contains("<style>")),
        DocumentSegment::Markdown(_) => true,
    }));
}

#[test]
fn tables_keep_union_type_cells_and_fenced_table_text_stays_code() {
    let parsed = parse_document(
        "| Type | Meaning |\n| --- | --- |\n| `string | nil` | optional |\n\n```md\n| not | a table |\n| --- | --- |\n```",
    );
    assert!(matches!(
        &parsed.segments[0],
        DocumentSegment::Table { rows, .. }
            if rows == &[vec![String::from("string | nil"), String::from("optional")]]
    ));
    assert!(matches!(
        &parsed.segments[1],
        DocumentSegment::Markdown(text) if text == "\n```md\n| not | a table |\n| --- | --- |\n```"
    ));
    assert_eq!(parsed.segments.len(), 2);
}

#[test]
fn repeated_headings_are_numbered_and_fenced_ones_skipped() {
    let lines = ["# Intro", "## Intro", "```", "# Not a heading", "```", "###### Intro", "####### Too deep", "#No space"];
    let anchors = heading_anchors(&lines);
    assert_eq!(
        anchors,
        vec![("intro".to_string(), 0), ("intro-1".to_string(), 1), ("intro-2".to_string(), 5)]
    );
}

#[test]
fn lines_split_like_str_lines() {
    for text in ["", "a", "a\n", "a\r\nb", "a\n\nb\n", "\n", "x\r", "a\rb\n"] {
        let expected: Vec<String> = text.lines().map(str::to_string).collect();
        assert_eq!(split_lines(text), expected, "{text:?}");
    }
}

use bds_ui::views::documentation::api_document_source;

#[test]
fn api_document_joins_reference_types_and_examples() {
    let (reference, types, utility, macro_example, transform) = ("# Ref", "# Types", "u()", "m()", "t()");
    let expected = format!(
        "{reference}\n\n{types}\n\n# Lua Examples\n\n## Utility Lua example\n\n```lua\n{utility}\n```\n\n## Macro Lua example\n\n```lua\n{macro_example}\n```\n\n## Transform Lua example\n\n```lua\n{transform}\n```\n"
    );
    assert_eq!(api_document_source(reference, types, utility, macro_example, transform), expected);
    let parsed = parse_document(&expected);
    assert!(parsed.anchors.iter().any(|(slug, _)| slug == "utility-lua-example"));
}

#[test]
fn ready_documents_are_parsed_into_the_state() {
    let mut state = DocumentationState::new(DocumentationKind::Cli);
    assert!(state.parsed.segments.is_empty());
    state.start_loading();
    state.apply(DocumentLoad::Ready { source: "# Title\n\nText".into(), signature: 4 });
    assert_eq!(state.parsed.line_count, 3);
    assert!(state.parsed.anchors.iter().any(|(slug, line)| slug == "title" && *line == 0));
    assert!(!state.parsed.segments.is_empty());
    state.apply(DocumentLoad::Missing { signature: 5 });
    assert!(state.parsed.segments.is_empty());
    assert_eq!(state.parsed.line_count, 0);
}
