use laxa::as_masked::{is_interesting, mask, masked_segments, plain_clusters, Segment};

fn clusters(items: &[(usize, &str)]) -> Vec<(usize, String)> {
    items.iter().map(|(i, s)| (*i, s.to_string())).collect()
}

#[test]
fn sensitive_names_in_any_case() {
    assert!(is_interesting("user=ADMIN"));
    assert!(is_interesting("krbtgt/EXAMPLE"));
    assert!(is_interesting("KrBtGt"));
    assert!(!is_interesting("administrato".get(0..4).unwrap()));
    assert!(!is_interesting("plain text"));
    assert!(mask("Admin login", 0, false).interesting);
    assert!(!mask("guest login", 0, true).interesting);
}

#[test]
fn unmasked_text_is_one_plain_run() {
    let m = mask("héllo", 0, false);
    assert_eq!(
        m.segments,
        vec![Segment::Plain(vec![
            "h".to_string(),
            "é".to_string(),
            "l".to_string(),
            "l".to_string(),
            "o".to_string()
        ])]
    );
    let tail = mask("héllo", 3, false);
    assert_eq!(
        tail.segments,
        vec![Segment::Plain(vec!["l".to_string(), "l".to_string(), "o".to_string()])]
    );
}

#[test]
fn zero_width_characters_are_masked() {
    let m = mask("a\u{200e}b", 0, true);
    assert_eq!(
        m.segments,
        vec![
            Segment::Plain(vec!["a".to_string()]),
            Segment::Masked("\\u{200e}".to_string()),
            Segment::Plain(vec!["b".to_string()]),
        ]
    );
    let only = mask("\u{200e}", 0, true);
    assert_eq!(only.segments, vec![Segment::Masked("\\u{200e}".to_string())]);
    assert_eq!(mask("", 0, true).segments, Vec::<Segment>::new());
}

#[test]
fn wide_and_combined_clusters_show() {
    let m = mask("y\u{306}é", 0, true);
    assert_eq!(
        m.segments,
        vec![Segment::Plain(vec!["y\u{306}".to_string(), "é".to_string()])]
    );
}

#[test]
fn segments_from_given_clusters() {
    let cs = clusters(&[(0, "a"), (1, "b"), (2, "c")]);
    assert_eq!(
        masked_segments(&cs, 1),
        vec![Segment::Plain(vec!["b".to_string(), "c".to_string()])]
    );
    assert_eq!(plain_clusters(&cs, 2), vec!["c".to_string()]);
    assert_eq!(plain_clusters(&cs, 5), Vec::<String>::new());
}
