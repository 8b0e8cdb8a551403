use dprint_plugin_jupyter::text_changes::ConsistencyError;
use dprint_plugin_jupyter::text_changes::TextChange;
use dprint_plugin_jupyter::text_changes::apply_text_changes;

#[test]
fn applies_text_changes() {
    // replacing text
    assert_eq!(
        apply_text_changes(
            b"0123456789",
            vec![
                TextChange::new(9, 10, b"z".to_vec()),
                TextChange::new(4, 6, b"y".to_vec()),
                TextChange::new(1, 2, b"x".to_vec()),
            ]
        )
        .unwrap(),
        b"0x23y678z".to_vec(),
    );

    // replacing beside
    assert_eq!(
        apply_text_changes(
            b"0123456789",
            vec![
                TextChange::new(0, 5, b"a".to_vec()),
                TextChange::new(5, 7, b"b".to_vec()),
                TextChange::new(7, 10, b"c".to_vec()),
            ]
        )
        .unwrap(),
        b"abc".to_vec(),
    );

    // full replace
    assert_eq!(
        apply_text_changes(b"0123456789", vec![TextChange::new(0, 10, b"x".to_vec())]).unwrap(),
        b"x".to_vec(),
    );

    // 1 over
    assert_eq!(
        apply_text_changes(b"0123456789", vec![TextChange::new(0, 11, b"x".to_vec())]).unwrap(),
        b"x".to_vec(),
    );

    // insert
    assert_eq!(
        apply_text_changes(b"0123456789", vec![TextChange::new(5, 5, b"x".to_vec())]).unwrap(),
        b"01234x56789".to_vec(),
    );

    // prepend
    assert_eq!(
        apply_text_changes(b"0123456789", vec![TextChange::new(0, 0, b"x".to_vec())]).unwrap(),
        b"x0123456789".to_vec(),
    );

    // append
    assert_eq!(
        apply_text_changes(b"0123456789", vec![TextChange::new(10, 10, b"x".to_vec())]).unwrap(),
        b"0123456789x".to_vec(),
    );

    // append over
    assert_eq!(
        apply_text_changes(b"0123456789", vec![TextChange::new(11, 11, b"x".to_vec())]).unwrap(),
        b"0123456789x".to_vec(),
    );

    // multiple at start
    assert_eq!(
        apply_text_changes(
            b"0123456789",
            vec![
                TextChange::new(0, 7, b"a".to_vec()),
                TextChange::new(0, 0, b"b".to_vec()),
                TextChange::new(0, 0, b"c".to_vec()),
                TextChange::new(7, 10, b"d".to_vec()),
            ]
        )
        .unwrap(),
        b"bcad".to_vec(),
    );
}

#[test]
fn identity_on_empty_changes() {
    assert_eq!(
        apply_text_changes(b"any source at all", vec![]).unwrap(),
        b"any source at all".to_vec(),
    );
    assert_eq!(apply_text_changes(b"", vec![]).unwrap(), Vec::<u8>::new());
}

#[test]
fn overlap_within_is_rejected() {
    let r = apply_text_changes(
        b"0123456789",
        vec![
            TextChange::new(3, 10, b"x".to_vec()),
            TextChange::new(5, 7, b"x".to_vec()),
        ],
    );
    assert_eq!(
        r.unwrap_err(),
        ConsistencyError::Overlap { past_index: 10, start: 5 },
    );
}

#[test]
fn overlap_beside_is_rejected() {
    let r = apply_text_changes(
        b"0123456789",
        vec![
            TextChange::new(2, 4, b"x".to_vec()),
            TextChange::new(3, 5, b"x".to_vec()),
        ],
    );
    assert_eq!(
        r.unwrap_err(),
        ConsistencyError::Overlap { past_index: 4, start: 3 },
    );
}

#[test]
fn start_greater_than_end_is_rejected() {
    let r = apply_text_changes(b"0123456789", vec![TextChange::new(2, 1, b"x".to_vec())]);
    assert_eq!(r.unwrap_err(), ConsistencyError::InvertedRange { start: 2, end: 1 });
}

#[test]
fn new_keeps_fields() {
    let c = TextChange::new(3, 8, b"abc".to_vec());
    assert_eq!(c.start, 3);
    assert_eq!(c.end, 8);
    assert_eq!(c.new_text, b"abc".to_vec());
}
