use kindle_clippings::csv_writer::to_records;
use kindle_clippings::Note;

#[test]
fn a_record_is_the_title_then_the_text() {
    let notes = vec![
        Note { title: "One".to_string(), tidied_note: "first\nsecond".to_string() },
        Note { title: "Two, with a comma".to_string(), tidied_note: "\"quoted\"".to_string() },
    ];
    let records = to_records(notes);
    assert_eq!(
        records,
        vec![
            ["One".to_string(), "first\nsecond".to_string()],
            ["Two, with a comma".to_string(), "\"quoted\"".to_string()],
        ]
    );
}

#[test]
fn no_notes_give_no_records() {
    assert!(to_records(Vec::new()).is_empty());
}
