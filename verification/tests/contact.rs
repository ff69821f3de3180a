use eris::contact::{
    extract_number, extract_string, find_unsent_rows, notification, notification_at, sent,
    CellData, DeveloperMetadata, DimensionProperties, Entry, ExtendedValue, GridData, RowData,
    Sheet, SheetProperties, Spreadsheet, MAX_DESCRIPTION, SENT_KEY,
};

fn text(s: &str) -> CellData {
    CellData { effective_value: Some(ExtendedValue::String(s.to_string())) }
}

fn number(days: f64) -> CellData {
    CellData { effective_value: Some(ExtendedValue::Number(days.to_bits())) }
}

fn empty() -> CellData {
    CellData { effective_value: None }
}

fn row(cells: Vec<CellData>) -> RowData {
    RowData { values: Some(cells) }
}

fn plain() -> DimensionProperties {
    DimensionProperties { developer_metadata: None }
}

fn marked(keys: &[Option<&str>]) -> DimensionProperties {
    DimensionProperties {
        developer_metadata: Some(
            keys.iter().map(|key| DeveloperMetadata { key: key.map(str::to_string) }).collect(),
        ),
    }
}

fn sheet_of(id: Option<u64>, grids: Vec<GridData>) -> Spreadsheet {
    Spreadsheet {
        sheets: Some(vec![Sheet {
            properties: Some(SheetProperties { sheet_id: id }),
            data: Some(grids),
        }]),
    }
}

fn message(written: f64, message: &str, username: Option<&str>, row: u64) -> Entry {
    Entry {
        written: written.to_bits(),
        message: message.to_string(),
        username: username.map(str::to_string),
        row,
    }
}

#[test]
fn key_of_the_mark_is_lrrbot_sent() {
    assert_eq!(SENT_KEY, "lrrbot.sent");
    assert_eq!(MAX_DESCRIPTION, 2000);
}

#[test]
fn string_is_extracted_from_a_cell_of_text_only() {
    assert_eq!(extract_string(&text("hello")), Some(&"hello".to_string()));
    assert_eq!(extract_string(&number(1.5)), None);
    assert_eq!(extract_string(&empty()), None);
    let formula = CellData { effective_value: Some(ExtendedValue::Formula("=A1".to_string())) };
    assert_eq!(extract_string(&formula), None);
    let flag = CellData { effective_value: Some(ExtendedValue::Bool(true)) };
    assert_eq!(extract_string(&flag), None);
}

#[test]
fn number_is_extracted_from_a_cell_of_a_number_only() {
    assert_eq!(extract_number(&number(43470.75)), Some(43470.75f64.to_bits()));
    assert_eq!(extract_number(&text("43470.75")), None);
    assert_eq!(extract_number(&empty()), None);
}

#[test]
fn row_is_sent_if_any_of_its_metadata_has_the_key() {
    assert!(!sent(&plain()));
    assert!(!sent(&marked(&[])));
    assert!(!sent(&marked(&[None, Some("other")])));
    assert!(!sent(&marked(&[Some("lrrbot.sent2"), Some("lrrbot.sen")])));
    assert!(sent(&marked(&[Some("lrrbot.sent")])));
    assert!(sent(&marked(&[None, Some("other"), Some("lrrbot.sent")])));
}

#[test]
fn unsent_rows_skip_the_heading_the_sent_and_the_incomplete() {
    let grid = GridData {
        start_row: None,
        row_data: Some(vec![
            row(vec![number(1.0), text("heading"), text("who")]),
            row(vec![number(2.0), text("first"), text("alice")]),
            row(vec![number(3.0), text("already sent")]),
            row(vec![text("no time"), text("message")]),
            row(vec![number(5.0)]),
            row(vec![number(6.0), text("anonymous"), number(0.0)]),
            RowData { values: None },
            row(vec![number(8.0), text("no properties")]),
        ]),
        row_metadata: Some(vec![
            plain(),
            plain(),
            marked(&[Some("lrrbot.sent")]),
            plain(),
            plain(),
            marked(&[Some("something else")]),
            plain(),
        ]),
    };
    let found = find_unsent_rows(&sheet_of(Some(77), vec![grid]));
    assert_eq!(
        found,
        Some((
            77,
            vec![message(2.0, "first", Some("alice"), 1), message(6.0, "anonymous", None, 5)]
        ))
    );
}

#[test]
fn unsent_rows_are_numbered_from_the_start_of_their_block() {
    let first = GridData {
        start_row: Some(0),
        row_data: Some(vec![row(vec![number(1.0), text("heading")])]),
        row_metadata: Some(vec![plain()]),
    };
    let second = GridData {
        start_row: Some(40),
        row_data: Some(vec![
            row(vec![number(2.0), text("a")]),
            row(vec![number(3.0), text("b"), text("bob")]),
        ]),
        row_metadata: Some(vec![plain(), plain()]),
    };
    let found = find_unsent_rows(&sheet_of(Some(0), vec![first, second]));
    assert_eq!(
        found,
        Some((0, vec![message(2.0, "a", None, 40), message(3.0, "b", Some("bob"), 41)]))
    );
}

#[test]
fn row_number_wraps_around() {
    let grid = GridData {
        start_row: Some(u64::MAX),
        row_data: Some(vec![
            row(vec![number(2.0), text("last")]),
            row(vec![number(3.0), text("wrapped to the heading")]),
            row(vec![number(4.0), text("one")]),
        ]),
        row_metadata: Some(vec![plain(), plain(), plain()]),
    };
    let found = find_unsent_rows(&sheet_of(Some(1), vec![grid]));
    assert_eq!(
        found,
        Some((1, vec![message(2.0, "last", None, u64::MAX), message(4.0, "one", None, 1)]))
    );
}

#[test]
fn nothing_is_found_where_something_needed_is_missing() {
    let grid = || GridData {
        start_row: Some(1),
        row_data: Some(vec![row(vec![number(2.0), text("a")])]),
        row_metadata: Some(vec![plain()]),
    };
    assert!(find_unsent_rows(&sheet_of(Some(1), vec![grid()])).is_some());
    assert_eq!(find_unsent_rows(&Spreadsheet { sheets: None }), None);
    assert_eq!(find_unsent_rows(&Spreadsheet { sheets: Some(Vec::new()) }), None);
    assert_eq!(find_unsent_rows(&sheet_of(None, vec![grid()])), None);
    let no_properties =
        Spreadsheet { sheets: Some(vec![Sheet { properties: None, data: Some(vec![grid()]) }]) };
    assert_eq!(find_unsent_rows(&no_properties), None);
    let no_data = Spreadsheet {
        sheets: Some(vec![Sheet {
            properties: Some(SheetProperties { sheet_id: Some(1) }),
            data: None,
        }]),
    };
    assert_eq!(find_unsent_rows(&no_data), None);
    let no_rows = GridData { start_row: Some(1), row_data: None, row_metadata: Some(vec![plain()]) };
    assert_eq!(find_unsent_rows(&sheet_of(Some(1), vec![grid(), no_rows])), None);
    let no_metadata = GridData {
        start_row: Some(1),
        row_data: Some(vec![row(vec![number(2.0), text("a")])]),
        row_metadata: None,
    };
    assert_eq!(find_unsent_rows(&sheet_of(Some(1), vec![no_metadata, grid()])), None);
}

#[test]
fn sheet_without_blocks_has_no_unsent_rows() {
    assert_eq!(find_unsent_rows(&sheet_of(Some(5), Vec::new())), Some((5, Vec::new())));
}

#[test]
fn only_the_first_sheet_is_searched() {
    let mut spreadsheet = sheet_of(Some(1), Vec::new());
    spreadsheet.sheets.as_mut().unwrap().push(Sheet {
        properties: Some(SheetProperties { sheet_id: Some(2) }),
        data: Some(vec![GridData {
            start_row: Some(1),
            row_data: Some(vec![row(vec![number(2.0), text("a")])]),
            row_metadata: Some(vec![plain()]),
        }]),
    });
    assert_eq!(find_unsent_rows(&spreadsheet), Some((1, Vec::new())));
}

#[test]
fn notification_shows_the_message_the_time_and_the_author() {
    let entry = message(43470.75, "hello there", Some("alice"), 3);
    let shown = notification(&entry, 1546711200, 500_000_000).unwrap();
    assert_eq!(shown.content, "New message from the contact form:");
    assert_eq!(shown.description, "hello there");
    assert_eq!(shown.timestamp, "2019-01-05T18:00:00.500+00:00");
    assert_eq!(shown.author, Some("alice".to_string()));
}

#[test]
fn notification_at_the_start_of_1970() {
    let entry = message(25569.0, "first", None, 1);
    let shown = notification(&entry, 0, 0).unwrap();
    assert_eq!(shown.timestamp, "1970-01-01T00:00:00+00:00");
    assert_eq!(shown.author, None);
}

#[test]
fn notification_is_not_made_for_a_time_out_of_range() {
    let entry = message(0.0, "m", None, 1);
    assert_eq!(notification(&entry, i64::MAX, 0), None);
    assert_eq!(notification(&entry, i64::MIN, 0), None);
    assert_eq!(notification(&entry, 0, 2_000_000_000), None);
}

#[test]
fn long_message_is_cut_after_two_thousand_characters() {
    let exactly: String = "é".repeat(2000);
    let longer: String = "é".repeat(2001);
    let at = "2019-01-05T18:00:00+00:00".to_string();
    let fits = notification_at(&message(0.0, &exactly, None, 1), at.clone());
    assert_eq!(fits.description, exactly);
    assert_eq!(fits.timestamp, at);
    let cut = notification_at(&message(0.0, &longer, None, 1), at);
    assert_eq!(cut.description, format!("{}[...]", exactly));
    assert_eq!(cut.description.chars().count(), 2005);
}
