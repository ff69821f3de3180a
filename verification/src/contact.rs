//! Messages from the contact form: which rows of the form's spreadsheet
//! have not been passed on yet, and what is passed on for each.

use vstd::prelude::*;
use vstd::string::*;

verus! {

/// The key of the metadata that marks a row as passed on.
pub const SENT_KEY: &'static str = "lrrbot.sent";

/// The most characters of a message that are passed on.
pub const MAX_DESCRIPTION: usize = 2000;

/// What a cell holds. A number is held by the bits of its representation; it
/// is carried along and never computed with.
#[derive(Clone, Debug, PartialEq, Eq)]
pub enum ExtendedValue {
    Number(u64),
    String(String),
    Bool(bool),
    Formula(String),
    Error(String),
}

/// A cell of the sheet.
#[derive(Clone, Debug, PartialEq, Eq)]
pub struct CellData {
    pub effective_value: Option<ExtendedValue>,
}

/// A row of the sheet.
#[derive(Clone, Debug, PartialEq, Eq)]
pub struct RowData {
    pub values: Option<Vec<CellData>>,
}

/// A piece of metadata attached to a row.
#[derive(Clone, Debug, PartialEq, Eq)]
pub struct DeveloperMetadata {
    pub key: Option<String>,
}

/// What is known about a row besides its cells.
#[derive(Clone, Debug, PartialEq, Eq)]
pub struct DimensionProperties {
    pub developer_metadata: Option<Vec<DeveloperMetadata>>,
}

/// A block of rows of a sheet, with the number of the first of them.
#[derive(Clone, Debug, PartialEq, Eq)]
pub struct GridData {
    pub start_row: Option<u64>,
    pub row_data: Option<Vec<RowData>>,
    pub row_metadata: Option<Vec<DimensionProperties>>,
}

/// What is known about a sheet besides its rows.
#[derive(Clone, Debug, PartialEq, Eq)]
pub struct SheetProperties {
    pub sheet_id: Option<u64>,
}

/// A sheet of the spreadsheet.
#[derive(Clone, Debug, PartialEq, Eq)]
pub struct Sheet {
    pub properties: Option<SheetProperties>,
    pub data: Option<Vec<GridData>>,
}

/// The spreadsheet that collects the messages of the contact form.
#[derive(Clone, Debug, PartialEq, Eq)]
pub struct Spreadsheet {
    pub sheets: Option<Vec<Sheet>>,
}

/// A message that has not been passed on: the number in its first cell,
/// which says when it was written, the message, its author if one is named,
/// and the number of its row.
#[derive(Clone, Debug, PartialEq, Eq)]
pub struct Entry {
    pub written: u64,
    pub message: String,
    pub username: Option<String>,
    pub row: u64,
}

/// What an `Entry` holds.
pub struct EntryView {
    pub written: u64,
    pub message: Seq<char>,
    pub username: Option<Seq<char>>,
    pub row: u64,
}

impl View for Entry {
    type V = EntryView;

    open spec fn view(&self) -> EntryView {
        EntryView {
            written: self.written,
            message: self.message@,
            username: match self.username {
                Some(name) => Some(name@),
                None => None,
            },
            row: self.row,
        }
    }
}

/// What each of `entries` holds.
pub open spec fn views_of(entries: Seq<Entry>) -> Seq<EntryView> {
    Seq::new(entries.len(), |i: int| entries[i]@)
}

/// The text of a cell that holds text.
pub open spec fn text_of(cell: CellData) -> Option<Seq<char>> {
    match cell.effective_value {
        Some(ExtendedValue::String(text)) => Some(text@),
        _ => None,
    }
}

/// The number of a cell that holds a number.
pub open spec fn number_of(cell: CellData) -> Option<u64> {
    match cell.effective_value {
        Some(ExtendedValue::Number(number)) => Some(number),
        _ => None,
    }
}

/// The cell in column `column` of a row, if the row reaches that far.
pub open spec fn cell_of(row: RowData, column: int) -> Option<CellData> {
    match row.values {
        Some(cells) => if 0 <= column < cells@.len() {
            Some(cells@[column])
        } else {
            None
        },
        None => None,
    }
}

/// The text in column `column` of a row, if a cell is there and holds text.
pub open spec fn text_at(row: RowData, column: int) -> Option<Seq<char>> {
    match cell_of(row, column) {
        Some(cell) => text_of(cell),
        None => None,
    }
}

/// The number in column `column` of a row, if a cell is there and holds a
/// number.
pub open spec fn number_at(row: RowData, column: int) -> Option<u64> {
    match cell_of(row, column) {
        Some(cell) => number_of(cell),
        None => None,
    }
}

/// Whether a piece of metadata is the mark of a row that was passed on.
pub open spec fn is_mark(metadata: DeveloperMetadata) -> bool {
    metadata.key matches Some(key) && key@ == SENT_KEY@
}

/// Whether the mark of a row that was passed on is among `metadata`.
pub open spec fn has_mark(metadata: Seq<DeveloperMetadata>) -> bool {
    exists|i: int| 0 <= i < metadata.len() && is_mark(#[trigger] metadata[i])
}

/// Whether a row is marked as passed on.
pub open spec fn is_sent(properties: DimensionProperties) -> bool {
    match properties.developer_metadata {
        Some(metadata) => has_mark(metadata@),
        None => false,
    }
}

/// The message in a row, if the row holds one that is to be passed on: the
/// row is not the heading (row 0), is not marked as passed on, and holds a
/// number in its first cell and text in its second. The third cell names
/// the author if it holds text.
pub open spec fn entry_of(row: RowData, properties: DimensionProperties, number: u64) -> Option<
    EntryView,
> {
    if number == 0 || is_sent(properties) {
        None
    } else {
        match (number_at(row, 0), text_at(row, 1)) {
            (Some(written), Some(message)) => Some(
                EntryView { written, message, username: text_at(row, 2), row: number },
            ),
            _ => None,
        }
    }
}

/// The number of the row at position `i` of a block that starts at row
/// `start`. Numbers beyond the largest wrap around.
pub open spec fn row_number(start: u64, i: int) -> u64 {
    ((start + i) % 0x1_0000_0000_0000_0000) as u64
}

/// The messages to pass on among the first `n` rows of a block.
pub open spec fn block_entries(
    start: u64,
    rows: Seq<RowData>,
    properties: Seq<DimensionProperties>,
    n: int,
) -> Seq<EntryView>
    decreases n,
{
    if n <= 0 {
        Seq::empty()
    } else {
        let before = block_entries(start, rows, properties, n - 1);
        match entry_of(rows[n - 1], properties[n - 1], row_number(start, n - 1)) {
            Some(entry) => before.push(entry),
            None => before,
        }
    }
}

/// The rows of a block that come with their properties.
pub open spec fn paired_rows(rows: Seq<RowData>, properties: Seq<DimensionProperties>) -> int {
    if rows.len() <= properties.len() {
        rows.len() as int
    } else {
        properties.len() as int
    }
}

/// The messages to pass on in a block, if the block holds both its rows and
/// their properties. A block without a first row number starts at row 0.
pub open spec fn grid_entries(grid: GridData) -> Option<Seq<EntryView>> {
    match (grid.row_data, grid.row_metadata) {
        (Some(rows), Some(properties)) => Some(
            block_entries(
                match grid.start_row {
                    Some(start) => start,
                    None => 0,
                },
                rows@,
                properties@,
                paired_rows(rows@, properties@),
            ),
        ),
        _ => None,
    }
}

/// The messages to pass on in the first `n` blocks of a sheet, block after
/// block, if each of these blocks holds its rows and their properties.
pub open spec fn sheet_entries(grids: Seq<GridData>, n: int) -> Option<Seq<EntryView>>
    decreases n,
{
    if n <= 0 {
        Some(Seq::empty())
    } else {
        match (sheet_entries(grids, n - 1), grid_entries(grids[n - 1])) {
            (Some(before), Some(entries)) => Some(before + entries),
            _ => None,
        }
    }
}

/// The identifier of the first sheet and the messages to pass on from it,
/// if the spreadsheet holds everything needed to tell: a first sheet, its
/// identifier, its blocks, and in each block the rows and their properties.
pub open spec fn unsent_rows(spreadsheet: Spreadsheet) -> Option<(u64, Seq<EntryView>)> {
    match spreadsheet.sheets {
        Some(sheets) => if sheets@.len() == 0 {
            None
        } else {
            match (sheets@[0].properties, sheets@[0].data) {
                (Some(properties), Some(grids)) => match (
                    properties.sheet_id,
                    sheet_entries(grids@, grids@.len() as int),
                ) {
                    (Some(sheet_id), Some(entries)) => Some((sheet_id, entries)),
                    _ => None,
                },
                _ => None,
            }
        },
        None => None,
    }
}

/// The text of a cell that holds text.
pub fn extract_string(cell: &CellData) -> (text: Option<&String>)
    ensures
        match text {
            Some(t) => text_of(*cell) == Some(t@),
            None => text_of(*cell) is None,
        },
{
    match &cell.effective_value {
        Some(ExtendedValue::String(string)) => Some(string),
        _ => None,
    }
}

/// The number of a cell that holds a number, by its bits.
pub fn extract_number(cell: &CellData) -> (number: Option<u64>)
    ensures
        number == number_of(*cell),
{
    match &cell.effective_value {
        Some(ExtendedValue::Number(number)) => Some(*number),
        _ => None,
    }
}

/// The cell in column `column` of a row, if the row reaches that far.
fn cell(row: &RowData, column: usize) -> (found: Option<&CellData>)
    ensures
        match found {
            Some(c) => cell_of(*row, column as int) == Some(*c),
            None => cell_of(*row, column as int) is None,
        },
{
    match &row.values {
        Some(cells) => if column < cells.len() {
            Some(&cells[column])
        } else {
            None
        },
        None => None,
    }
}

/// A copy of the text in column `column` of a row.
fn text(row: &RowData, column: usize) -> (found: Option<String>)
    ensures
        match found {
            Some(t) => text_at(*row, column as int) == Some(t@),
            None => text_at(*row, column as int) is None,
        },
{
    match cell(row, column) {
        Some(c) => match extract_string(c) {
            Some(t) => Some(t.clone()),
            None => None,
        },
        None => None,
    }
}

/// Whether a row is marked as passed on.
pub fn sent(properties: &DimensionProperties) -> (marked: bool)
    ensures
        marked == is_sent(*properties),
{
    match &properties.developer_metadata {
        None => false,
        Some(metadata) => {
            let mark = SENT_KEY.to_owned();
            let mut i: usize = 0;
            while i < metadata.len()
                invariant
                    i <= metadata@.len(),
                    mark@ == SENT_KEY@,
                    properties.developer_metadata == Some(*metadata),
                    forall|j: int| 0 <= j < i ==> !is_mark(#[trigger] metadata@[j]),
                decreases metadata.len() - i,
            {
                let marked = match &metadata[i].key {
                    Some(key) => *key == mark,
                    None => false,
                };
                if marked {
                    assert(is_mark(metadata@[i as int]));
                    assert(has_mark(metadata@));
                    return true;
                }
                i += 1;
            }
            false
        },
    }
}

/// The message in a row, if the row holds one that is to be passed on.
fn entry(row: &RowData, properties: &DimensionProperties, number: u64) -> (found: Option<Entry>)
    ensures
        match found {
            Some(e) => entry_of(*row, *properties, number) == Some(e@),
            None => entry_of(*row, *properties, number) is None,
        },
{
    if number == 0 {
        return None;
    }
    if sent(properties) {
        return None;
    }
    let written = match cell(row, 0) {
        Some(c) => extract_number(c),
        None => None,
    };
    let message = text(row, 1);
    let username = text(row, 2);
    match (written, message) {
        (Some(written), Some(message)) => Some(Entry { written, message, username, row: number }),
        _ => None,
    }
}

/// Appends to `found` the messages to pass on in a block. Answers whether
/// the block held its rows and their properties; if not, `found` stays as
/// it was.
fn collect(grid: &GridData, found: &mut Vec<Entry>) -> (complete: bool)
    ensures
        match grid_entries(*grid) {
            Some(entries) => complete && views_of(final(found)@) == views_of(old(found)@) + entries,
            None => !complete && final(found)@ == old(found)@,
        },
{
    let start: u64 = match grid.start_row {
        Some(start) => start,
        None => 0,
    };
    match (&grid.row_data, &grid.row_metadata) {
        (Some(rows), Some(properties)) => {
            let n: usize = if rows.len() <= properties.len() {
                rows.len()
            } else {
                properties.len()
            };
            let mut i: usize = 0;
            assert(views_of(found@) =~= views_of(old(found)@) + block_entries(
                start,
                rows@,
                properties@,
                0,
            ));
            while i < n
                invariant
                    i <= n,
                    n == paired_rows(rows@, properties@),
                    views_of(found@) == views_of(old(found)@) + block_entries(
                        start,
                        rows@,
                        properties@,
                        i as int,
                    ),
                decreases n - i,
            {
                let number = start.wrapping_add(i as u64);
                assert(number == row_number(start, i as int));
                let ghost before = found@;
                match entry(&rows[i], &properties[i], number) {
                    Some(e) => {
                        found.push(e);
                        assert(views_of(found@) =~= views_of(before).push(e@));
                        assert(views_of(before).push(e@) =~= views_of(old(found)@)
                            + block_entries(start, rows@, properties@, i as int).push(e@));
                    },
                    None => {},
                }
                i += 1;
            }
            true
        },
        _ => false,
    }
}

/// Finds the messages that have not been passed on yet: the identifier of
/// the first sheet, and the messages in the order of their rows. Nothing is
/// found where the spreadsheet lacks what is needed to tell.
pub fn find_unsent_rows(spreadsheet: &Spreadsheet) -> (found: Option<(u64, Vec<Entry>)>)
    ensures
        match found {
            Some((sheet_id, entries)) => unsent_rows(*spreadsheet) == Some(
                (sheet_id, views_of(entries@)),
            ),
            None => unsent_rows(*spreadsheet) is None,
        },
{
    let sheets = match &spreadsheet.sheets {
        Some(sheets) => sheets,
        None => {
            return None;
        },
    };
    if sheets.len() == 0 {
        return None;
    }
    let sheet = &sheets[0];
    let sheet_id = match &sheet.properties {
        Some(properties) => match properties.sheet_id {
            Some(sheet_id) => sheet_id,
            None => {
                return None;
            },
        },
        None => {
            return None;
        },
    };
    let grids = match &sheet.data {
        Some(grids) => grids,
        None => {
            return None;
        },
    };
    let mut rows: Vec<Entry> = Vec::new();
    let mut i: usize = 0;
    assert(views_of(rows@) =~= Seq::<EntryView>::empty());
    while i < grids.len()
        invariant
            i <= grids@.len(),
            sheet_entries(grids@, i as int) == Some(views_of(rows@)),
            unsent_rows(*spreadsheet) == match sheet_entries(grids@, grids@.len() as int) {
                Some(entries) => Some((sheet_id, entries)),
                None => None,
            },
        decreases grids.len() - i,
    {
        let complete = collect(&grids[i], &mut rows);
        if !complete {
            proof {
                lemma_missing_block(grids@, i as int, grids@.len() as int);
            }
            return None;
        }
        i += 1;
    }
    Some((sheet_id, rows))
}

/// A block that lacks its rows or their properties spoils every run of
/// blocks that holds it.
proof fn lemma_missing_block(grids: Seq<GridData>, missing: int, n: int)
    requires
        0 <= missing < n <= grids.len(),
        grid_entries(grids[missing]) is None,
    ensures
        sheet_entries(grids, n) is None,
    decreases n,
{
    if missing < n - 1 {
        lemma_missing_block(grids, missing, n - 1);
    }
}

/// What is passed on of a message: the message itself, or its first
/// `MAX_DESCRIPTION` characters followed by a mark that it goes on.
pub open spec fn description_of(message: Seq<char>) -> Seq<char> {
    if message.len() > MAX_DESCRIPTION {
        message.subrange(0, MAX_DESCRIPTION as int) + "[...]"@
    } else {
        message
    }
}

/// The text that stands for the instant `seconds` and `nanos` after the
/// start of 1970 as RFC 3339 writes it, where the instant is within what
/// the calendar can hold.
pub uninterp spec fn rfc3339_text(seconds: i64, nanos: u32) -> Option<Seq<char>>;

/// Calls `chrono::DateTime::from_timestamp` and, on what it returns,
/// `chrono::DateTime::to_rfc3339`. The text depends on the two numbers
/// alone; there is none where `from_timestamp` finds them out of range.
#[verifier::external_body]
fn rfc3339(seconds: i64, nanos: u32) -> (text: Option<String>)
    ensures
        match text {
            Some(t) => rfc3339_text(seconds, nanos) == Some(t@),
            None => rfc3339_text(seconds, nanos) is None,
        },
{
    match chrono::DateTime::from_timestamp(seconds, nanos) {
        Some(instant) => Some(instant.to_rfc3339()),
        None => None,
    }
}

/// What the moderators are shown for one message.
#[derive(Clone, Debug, PartialEq, Eq)]
pub struct Notification {
    pub content: String,
    pub description: String,
    pub timestamp: String,
    pub author: Option<String>,
}

/// What a `Notification` holds.
pub struct NotificationView {
    pub content: Seq<char>,
    pub description: Seq<char>,
    pub timestamp: Seq<char>,
    pub author: Option<Seq<char>>,
}

impl View for Notification {
    type V = NotificationView;

    open spec fn view(&self) -> NotificationView {
        NotificationView {
            content: self.content@,
            description: self.description@,
            timestamp: self.timestamp@,
            author: match self.author {
                Some(name) => Some(name@),
                None => None,
            },
        }
    }
}

/// What is shown for `entry` once the time it was written, `timestamp`, has
/// been put into words.
pub open spec fn notification_of(entry: EntryView, timestamp: Seq<char>) -> NotificationView {
    NotificationView {
        content: "New message from the contact form:"@,
        description: description_of(entry.message),
        timestamp,
        author: entry.username,
    }
}

/// What is shown for `entry`, given the text of the time at which it was
/// written: the heading, the message, cut where it is too long, that time,
/// and the author if one is named.
pub fn notification_at(entry: &Entry, timestamp: String) -> (shown: Notification)
    ensures
        shown@ == notification_of(entry@, timestamp@),
{
    let length = entry.message.as_str().unicode_len();
    let description = if length > MAX_DESCRIPTION {
        let mut cut = entry.message.as_str().substring_char(0, MAX_DESCRIPTION).to_owned();
        cut.append("[...]");
        cut
    } else {
        entry.message.clone()
    };
    let author = match &entry.username {
        Some(name) => Some(name.clone()),
        None => None,
    };
    Notification {
        content: "New message from the contact form:".to_owned(),
        description,
        timestamp,
        author,
    }
}

/// What is shown for `entry`, written at the instant `seconds` and `nanos`
/// after the start of 1970. Nothing is shown for an instant that the
/// calendar cannot hold.
pub fn notification(entry: &Entry, seconds: i64, nanos: u32) -> (shown: Option<Notification>)
    ensures
        match shown {
            Some(n) => rfc3339_text(seconds, nanos) matches Some(text) && n@ == notification_of(
                entry@,
                text,
            ),
            None => rfc3339_text(seconds, nanos) is None,
        },
{
    match rfc3339(seconds, nanos) {
        Some(timestamp) => Some(notification_at(entry, timestamp)),
        None => None,
    }
}

} // verus!
