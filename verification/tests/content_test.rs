use clipboard_rs::content::{
    append_bytes, check_payloads, copy_bytes, first_bytes, format_listed, has_format,
    select_formats,
    ClipboardPayload, ContentFormat,
};

fn sample() -> Vec<ClipboardPayload> {
    vec![
        ClipboardPayload::new(ContentFormat::Html, b"<b>hi</b>".to_vec()),
        ClipboardPayload::new(ContentFormat::Text, b"hi".to_vec()),
        ClipboardPayload::new(ContentFormat::Custom("app/x".to_string()), vec![1, 2, 3]),
        ClipboardPayload::new(ContentFormat::Text, b"second".to_vec()),
    ]
}

#[test]
fn formats_compare_by_kind_and_name() {
    assert!(ContentFormat::Text == ContentFormat::Text);
    assert!(ContentFormat::Text != ContentFormat::Rtf);
    assert!(ContentFormat::Image != ContentFormat::Files);
    assert!(ContentFormat::Custom("a".to_string()) == ContentFormat::Custom("a".to_string()));
    assert!(ContentFormat::Custom("a".to_string()) != ContentFormat::Custom("b".to_string()));
    assert!(ContentFormat::Custom("Text".to_string()) != ContentFormat::Text);
    assert!(ContentFormat::Html == ContentFormat::Html.clone());
    assert!(
        ContentFormat::Custom("a".to_string()).clone() == ContentFormat::Custom("a".to_string())
    );
}

#[test]
fn payload_clone_keeps_format_and_bytes() {
    let p = ClipboardPayload::new(ContentFormat::Rtf, vec![9, 8, 7]);
    let q = p.clone();
    assert!(q.format == ContentFormat::Rtf);
    assert_eq!(q.bytes, vec![9, 8, 7]);
    assert_eq!(copy_bytes(&p.bytes), vec![9, 8, 7]);
}

#[test]
fn has_format_finds_what_is_there() {
    let all = sample();
    assert!(has_format(&all, &ContentFormat::Text));
    assert!(has_format(&all, &ContentFormat::Html));
    assert!(has_format(&all, &ContentFormat::Custom("app/x".to_string())));
    assert!(!has_format(&all, &ContentFormat::Custom("app/y".to_string())));
    assert!(!has_format(&all, &ContentFormat::Image));
    assert!(!has_format(&Vec::new(), &ContentFormat::Text));
}

#[test]
fn format_listed_checks_membership() {
    let wanted = vec![ContentFormat::Text, ContentFormat::Custom("k".to_string())];
    assert!(format_listed(&wanted, &ContentFormat::Text));
    assert!(format_listed(&wanted, &ContentFormat::Custom("k".to_string())));
    assert!(!format_listed(&wanted, &ContentFormat::Custom("j".to_string())));
    assert!(!format_listed(&wanted, &ContentFormat::Files));
    assert!(!format_listed(&Vec::new(), &ContentFormat::Files));
}

#[test]
fn select_keeps_stored_order() {
    let all = sample();
    let picked = select_formats(&all, &vec![ContentFormat::Text, ContentFormat::Html]);
    assert_eq!(picked.len(), 3);
    assert!(picked[0].format == ContentFormat::Html);
    assert_eq!(picked[0].bytes, b"<b>hi</b>".to_vec());
    assert!(picked[1].format == ContentFormat::Text);
    assert_eq!(picked[1].bytes, b"hi".to_vec());
    assert!(picked[2].format == ContentFormat::Text);
    assert_eq!(picked[2].bytes, b"second".to_vec());
    assert_eq!(select_formats(&all, &vec![ContentFormat::Image]).len(), 0);
    assert_eq!(select_formats(&all, &Vec::new()).len(), 0);
}

#[test]
fn first_bytes_takes_the_most_preferred() {
    let all = sample();
    assert_eq!(first_bytes(&all, &ContentFormat::Text), Some(b"hi".to_vec()));
    assert_eq!(
        first_bytes(&all, &ContentFormat::Custom("app/x".to_string())),
        Some(vec![1, 2, 3])
    );
    assert_eq!(first_bytes(&all, &ContentFormat::Files), None);
}

#[test]
fn append_bytes_adds_at_the_end() {
    let mut out = vec![1u8, 2];
    append_bytes(&mut out, &[3, 4, 5]);
    assert_eq!(out, vec![1, 2, 3, 4, 5]);
    append_bytes(&mut out, &[]);
    assert_eq!(out, vec![1, 2, 3, 4, 5]);
}

#[test]
fn a_write_needs_a_payload() {
    assert!(check_payloads(&sample()).is_ok());
    assert!(matches!(
        check_payloads(&Vec::new()),
        Err(clipboard_rs::error::ClipboardError::EmptyContent)
    ));
}
