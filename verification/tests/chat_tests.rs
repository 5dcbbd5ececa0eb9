use bds_ui::views::chat_view::{model_options, textarea_key, token_totals, ChatModelChoice, MessageTokenUsage};

fn choice(id: &str, label: &str) -> ChatModelChoice {
    ChatModelChoice { id: id.into(), label: label.into() }
}

fn reference(model: Option<&str>, mut options: Vec<ChatModelChoice>) -> Vec<(String, String)> {
    if let Some(model) = model {
        if !options.iter().any(|c| c.id == model) {
            options.push(choice(model, model));
        }
    }
    options.sort_by(|left, right| left.label.cmp(&right.label));
    options.dedup_by(|left, right| left.id == right.id);
    options.into_iter().map(|c| (c.id, c.label)).collect()
}

fn pairs(v: Vec<ChatModelChoice>) -> Vec<(String, String)> {
    v.into_iter().map(|c| (c.id, c.label)).collect()
}

#[test]
fn missing_conversation_model_is_added_and_options_sorted_by_label() {
    let options = vec![choice("b", "Beta"), choice("a", "Alpha")];
    let got = pairs(model_options(Some("zeta-1"), options.clone()));
    assert_eq!(
        got,
        vec![
            ("a".to_string(), "Alpha".to_string()),
            ("b".to_string(), "Beta".to_string()),
            ("zeta-1".to_string(), "zeta-1".to_string()),
        ]
    );
    assert_eq!(got, reference(Some("zeta-1"), options));
}

#[test]
fn known_model_is_not_added_twice_and_equal_labels_keep_their_order() {
    let options = vec![choice("x2", "Same"), choice("a", "Alpha"), choice("x1", "Same"), choice("a", "Alpha")];
    let got = pairs(model_options(Some("a"), options.clone()));
    assert_eq!(got, reference(Some("a"), options));
    assert_eq!(
        got,
        vec![
            ("a".to_string(), "Alpha".to_string()),
            ("x2".to_string(), "Same".to_string()),
            ("x1".to_string(), "Same".to_string()),
        ]
    );
}

#[test]
fn no_model_and_no_options_give_nothing() {
    assert!(model_options(None, Vec::new()).is_empty());
    let options = vec![choice("é", "é"), choice("z", "z"), choice("A", "A")];
    assert_eq!(pairs(model_options(None, options.clone())), reference(None, options));
}

#[test]
fn token_totals_ignore_missing_and_negative_counts() {
    let messages = vec![
        MessageTokenUsage { token_usage_input: Some(10), token_usage_output: Some(5), cache_read_tokens: None, cache_write_tokens: Some(-3) },
        MessageTokenUsage { token_usage_input: Some(1), token_usage_output: None, cache_read_tokens: Some(7), cache_write_tokens: Some(2) },
    ];
    assert_eq!(token_totals(&messages), (11, 5, 7, 2));
    assert_eq!(token_totals(&[]), (0, 0, 0, 0));
}

#[test]
fn textarea_keys_separate_surface_and_field_with_nul() {
    assert_eq!(textarea_key("s1", "note"), "s1\0note");
}

use bds_ui::views::chat_surfaces::{mindmap_rows, MindmapNode};

fn mind(id: Option<&str>, label: &str, children: &[&str]) -> MindmapNode {
    MindmapNode {
        id: id.map(str::to_string),
        label: label.into(),
        children: children.iter().map(|c| c.to_string()).collect(),
    }
}

#[test]
fn mindmap_is_cycle_safe_and_keeps_orphans() {
    let nodes = vec![mind(Some("a"), "A", &["b"]), mind(Some("b"), "B", &["a"]), mind(None, "Loose", &[])];
    let rows = mindmap_rows(&nodes);
    assert_eq!(rows.len(), 3);
    assert!(rows.iter().any(|(_, label)| label == "Loose"));
}

#[test]
fn mindmap_rows_follow_children_depth_first() {
    let nodes = vec![
        mind(Some("root"), "Root", &["x", "y", "missing"]),
        mind(Some("x"), "X", &["z"]),
        mind(Some("y"), "Y", &["z"]),
        mind(Some("z"), "Z", &[]),
        mind(Some("island"), "Island", &["island"]),
    ];
    let rows = mindmap_rows(&nodes);
    let shown: Vec<(usize, &str)> = rows.iter().map(|(d, l)| (*d, l.as_str())).collect();
    assert_eq!(shown, vec![(0, "Root"), (1, "X"), (2, "Z"), (1, "Y"), (0, "Island")]);
}

use bds_ui::views::chat_surfaces::{heatmap_layout, ChartSegment, ChartSeries};

fn segment(label: &str, value: f64) -> ChartSegment<f64> {
    ChartSegment { label: label.into(), value }
}

#[test]
fn heatmap_uses_labelled_segments_and_zero_fills_missing_cells() {
    let series = vec![
        ChartSeries { label: "First".into(), value: 0.0, segments: vec![segment("A", 2.0), segment("B", 4.0)] },
        ChartSeries { label: "Second".into(), value: 0.0, segments: vec![segment("B", 3.0)] },
    ];
    let (columns, rows) = heatmap_layout(&series, 0.0);
    assert_eq!(columns, ["A", "B"]);
    assert_eq!(rows[0], ("First".into(), vec![2.0, 4.0]));
    assert_eq!(rows[1], ("Second".into(), vec![0.0, 3.0]));
}

#[test]
fn heatmap_skips_series_without_segments_and_takes_the_first_duplicate() {
    let series = vec![
        ChartSeries { label: "Empty".into(), value: 1.0, segments: vec![] },
        ChartSeries { label: "Dup".into(), value: 0.0, segments: vec![segment("A", 1.0), segment("A", 9.0)] },
    ];
    let (columns, rows) = heatmap_layout(&series, 0.0);
    assert_eq!(columns, ["A"]);
    assert_eq!(rows, vec![("Dup".to_string(), vec![1.0])]);
}
