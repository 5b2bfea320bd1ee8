//! From the sheets of spreadsheets to one table of typed columns.
//!
//! A sheet is a list of rows of cells. Its first row names the columns. The
//! type of a column is that of its cell in the first row of data. The rows
//! of data of all sheets, in order, fill the columns.

use crate::response::http_error::{file_not_found, unprocessable_entity, Exception, ExceptionView};
use crate::server::schema::optional_text;
use crate::text::{chars_of, first_index_of, index_of, texts};
use vstd::prelude::*;
use vstd::string::*;

verus! {

/// What a cell holds.
#[derive(Debug, Clone, Copy, PartialEq, Eq, Structural)]
pub enum CellKind {
    Int,
    Float,
    String,
    Bool,
    DateTime,
    DateTimeIso,
    DurationIso,
    Error,
    Empty,
}

/// The type of a column.
#[derive(Debug, Clone, Copy, PartialEq, Eq, Structural)]
pub enum ColumnType {
    Utf8,
    Int64,
    Float64,
    Timestamp,
}

/// A cell: its kind, its content as text, as a whole number where it can
/// be read as one, and as a number with a fraction where it can be read
/// as one. The latter is held as the 64 bits of its binary form.
#[derive(Debug, PartialEq, Eq)]
pub struct Cell {
    pub kind: CellKind,
    pub text: String,
    pub int_value: Option<i64>,
    pub float_bits: Option<u64>,
}

/// Mathematical value of a [`Cell`].
pub struct CellView {
    pub kind: CellKind,
    pub text: Seq<char>,
    pub int_value: Option<i64>,
    pub float_bits: Option<u64>,
}

impl View for Cell {
    type V = CellView;

    open spec fn view(&self) -> CellView {
        CellView {
            kind: self.kind,
            text: self.text@,
            int_value: self.int_value,
            float_bits: self.float_bits,
        }
    }
}

impl Clone for Cell {
    fn clone(&self) -> (copy: Self)
        ensures
            copy@ == self@,
    {
        Cell {
            kind: self.kind,
            text: self.text.clone(),
            int_value: self.int_value,
            float_bits: self.float_bits,
        }
    }
}

/// The values of a row of cells.
pub open spec fn row_view(row: Vec<Cell>) -> Seq<CellView> {
    row@.map_values(|c: Cell| c@)
}

/// The values of the rows of a sheet.
pub open spec fn sheet_view(rows: Vec<Vec<Cell>>) -> Seq<Seq<CellView>> {
    rows@.map_values(|row: Vec<Cell>| row_view(row))
}

/// The values of a list of sheets.
pub open spec fn sheets_view(sheets: Vec<Vec<Vec<Cell>>>) -> Seq<Seq<Seq<CellView>>> {
    sheets@.map_values(|rows: Vec<Vec<Cell>>| sheet_view(rows))
}

/// A named, typed column.
#[derive(Debug, PartialEq, Eq)]
pub struct ColumnField {
    pub name: String,
    pub data_type: ColumnType,
    pub nullable: bool,
}

/// Mathematical value of a [`ColumnField`].
pub struct ColumnFieldView {
    pub name: Seq<char>,
    pub data_type: ColumnType,
    pub nullable: bool,
}

impl View for ColumnField {
    type V = ColumnFieldView;

    open spec fn view(&self) -> ColumnFieldView {
        ColumnFieldView { name: self.name@, data_type: self.data_type, nullable: self.nullable }
    }
}

/// The values of a list of fields.
pub open spec fn field_views(fields: Seq<ColumnField>) -> Seq<ColumnFieldView> {
    fields.map_values(|f: ColumnField| f@)
}

/// The values of one column, under its type.
#[derive(Debug, PartialEq, Eq)]
pub enum ColumnData {
    Utf8(Vec<String>),
    Int64(Vec<Option<i64>>),
    /// Numbers with a fraction, each as the 64 bits of its binary form.
    Float64(Vec<Option<u64>>),
    /// Nanoseconds since the Unix epoch.
    Timestamp(Vec<Option<i64>>),
}

/// Mathematical value of a [`ColumnData`].
pub enum ColumnDataView {
    Utf8(Seq<Seq<char>>),
    Int64(Seq<Option<i64>>),
    Float64(Seq<Option<u64>>),
    Timestamp(Seq<Option<i64>>),
}

impl View for ColumnData {
    type V = ColumnDataView;

    open spec fn view(&self) -> ColumnDataView {
        match *self {
            ColumnData::Utf8(values) => ColumnDataView::Utf8(texts(values@)),
            ColumnData::Int64(values) => ColumnDataView::Int64(values@),
            ColumnData::Float64(values) => ColumnDataView::Float64(values@),
            ColumnData::Timestamp(values) => ColumnDataView::Timestamp(values@),
        }
    }
}

/// Typed columns under their fields.
#[derive(Debug, PartialEq, Eq)]
pub struct SheetBatch {
    pub fields: Vec<ColumnField>,
    pub columns: Vec<ColumnData>,
}

/// Mathematical value of a [`SheetBatch`].
pub struct SheetBatchView {
    pub fields: Seq<ColumnFieldView>,
    pub columns: Seq<ColumnDataView>,
}

impl View for SheetBatch {
    type V = SheetBatchView;

    open spec fn view(&self) -> SheetBatchView {
        SheetBatchView {
            fields: field_views(self.fields@),
            columns: self.columns@.map_values(|c: ColumnData| c@),
        }
    }
}

/// The type of a column whose first cell of data is of the given kind:
/// text, whole numbers, numbers with a fraction and dates have their own
/// type, everything else is read as text.
pub open spec fn column_type_of(kind: CellKind) -> ColumnType {
    match kind {
        CellKind::String => ColumnType::Utf8,
        CellKind::Float => ColumnType::Float64,
        CellKind::Int => ColumnType::Int64,
        CellKind::DateTime => ColumnType::Timestamp,
        _ => ColumnType::Utf8,
    }
}

/// The type of a column whose first cell of data is of the given kind.
pub fn determine_data_type(kind: CellKind) -> (data_type: ColumnType)
    ensures
        data_type == column_type_of(kind),
{
    match kind {
        CellKind::String => ColumnType::Utf8,
        CellKind::Float => ColumnType::Float64,
        CellKind::Int => ColumnType::Int64,
        CellKind::DateTime => ColumnType::Timestamp,
        _ => ColumnType::Utf8,
    }
}

/// The field of column `j` of a sheet: named by the cell of the first row,
/// typed by the cell of the second; text where the sheet has no such cell.
pub open spec fn header_field(rows: Seq<Seq<CellView>>, j: int) -> ColumnFieldView {
    ColumnFieldView {
        name: rows[0][j].text,
        data_type: if rows.len() > 1 && j < rows[1].len() {
            column_type_of(rows[1][j].kind)
        } else {
            ColumnType::Utf8
        },
        nullable: true,
    }
}

/// The fields of a sheet, one for each cell of its first row.
pub open spec fn header_schema(rows: Seq<Seq<CellView>>) -> Seq<ColumnFieldView> {
    Seq::new(rows[0].len(), |j: int| header_field(rows, j))
}

/// The fields of a sheet. A sheet without rows has no header.
pub fn get_header_schema(rows: &Vec<Vec<Cell>>) -> (r: Result<Vec<ColumnField>, Exception>)
    ensures
        rows.len() == 0 ==> (r matches Err(e) && e@ == unprocessable_entity("Header not found"@)),
        rows.len() > 0 ==> (r matches Ok(fields) && field_views(fields@) == header_schema(
            sheet_view(*rows),
        )),
{
    if rows.len() == 0 {
        return Err(Exception::unprocessable_entity_error("Header not found"));
    }
    let header = &rows[0];
    let ghost sheet = sheet_view(*rows);
    let mut fields: Vec<ColumnField> = Vec::new();
    let n = header.len();
    let mut j: usize = 0;
    while j < n
        invariant
            j <= n,
            n == header.len(),
            header == &rows[0],
            rows.len() > 0,
            sheet == sheet_view(*rows),
            fields.len() == j,
            forall|k: int| 0 <= k < j ==> (#[trigger] fields[k])@ == header_field(sheet, k),
        decreases n - j,
    {
        let data_type = if rows.len() > 1 && j < rows[1].len() {
            determine_data_type(rows[1][j].kind)
        } else {
            ColumnType::Utf8
        };
        fields.push(ColumnField { name: header[j].text.clone(), data_type, nullable: true });
        j += 1;
    }
    Ok(fields)
}

/// The part of a path that names the file: what stands before the first
/// `#`.
pub open spec fn file_part(file_path: Seq<char>) -> Seq<char> {
    file_path.subrange(0, first_index_of(file_path, '#'))
}

/// The part of a path that names the sheet: what follows the first `#`,
/// where there is one.
pub open spec fn sheet_part(file_path: Seq<char>) -> Option<Seq<char>> {
    let at = first_index_of(file_path, '#');
    if at < file_path.len() {
        Some(file_path.subrange(at + 1, file_path.len() as int))
    } else {
        None
    }
}

/// Splits a path into the file and the sheet that it names.
pub fn split_sheet_reference(file_path: &str) -> (parts: (String, Option<String>))
    ensures
        parts.0@ == file_part(file_path@),
        optional_text(parts.1) == sheet_part(file_path@),
{
    let chars = chars_of(file_path);
    let at = index_of(&chars, '#');
    let file = String::from_str(file_path.substring_char(0, at));
    if at < chars.len() {
        (file, Some(String::from_str(file_path.substring_char(at + 1, chars.len()))))
    } else {
        (file, None)
    }
}

/// The sheet to read: the one asked for, or else the first of the
/// workbook. A workbook without sheets has none to offer.
pub fn select_sheet(requested: &Option<String>, sheet_names: &Vec<String>) -> (r: Result<
    String,
    Exception,
>)
    ensures
        match *requested {
            Some(name) => r matches Ok(sheet) && sheet@ == name@,
            None => if sheet_names.len() > 0 {
                r matches Ok(sheet) && sheet@ == sheet_names[0]@
            } else {
                r matches Err(e) && e@ == unprocessable_entity("Sheets not found"@)
            },
        },
{
    match requested {
        Some(name) => Ok(name.clone()),
        None => {
            if sheet_names.len() > 0 {
                Ok(sheet_names[0].clone())
            } else {
                Err(Exception::unprocessable_entity_error("Sheets not found"))
            }
        },
    }
}

/// The sheet to read for a path: the one that the path names after its
/// first `#`, or else, where the path names none, the first of the
/// workbook.
pub fn sheet_to_read(file_path: &str, sheet_names: &Vec<String>) -> (r: Result<String, Exception>)
    ensures
        match sheet_part(file_path@) {
            Some(name) => r matches Ok(sheet) && sheet@ == name,
            None => if sheet_names.len() > 0 {
                r matches Ok(sheet) && sheet@ == sheet_names[0]@
            } else {
                r matches Err(e) && e@ == unprocessable_entity("Sheets not found"@)
            },
        },
{
    let (_, requested) = split_sheet_reference(file_path);
    select_sheet(&requested, sheet_names)
}

/// What `chrono::NaiveDateTime::parse_from_str` reads from a text in the
/// form `%Y-%m-%d %H:%M:%S`, taken as a time in UTC and counted in
/// nanoseconds since the Unix epoch by
/// `chrono::DateTime::timestamp_nanos_opt`; nothing where the text has
/// another form or the count does not fit.
pub uninterp spec fn timestamp_nanos(text: Seq<char>) -> Option<i64>;

/// Reads a date and time with `chrono::NaiveDateTime::parse_from_str`,
/// takes it as UTC with `chrono::NaiveDateTime::and_utc` and counts its
/// nanoseconds with `chrono::DateTime::timestamp_nanos_opt`. The contract
/// claims that the outcome depends on the text alone.
#[verifier::external_body]
fn parse_timestamp(text: &str) -> (nanos: Option<i64>)
    ensures
        nanos == timestamp_nanos(text@),
{
    chrono::NaiveDateTime::parse_from_str(text, "%Y-%m-%d %H:%M:%S")
        .map(|date| date.and_utc().timestamp_nanos_opt())
        .unwrap_or_default()
}

/// The cells of column `j` in the rows of data of a sheet: all rows but
/// the first.
pub open spec fn column_cells(rows: Seq<Seq<CellView>>, j: int) -> Seq<CellView>
    decreases rows.len(),
{
    if rows.len() <= 1 {
        Seq::empty()
    } else {
        column_cells(rows.drop_last(), j).push(rows.last()[j])
    }
}

/// The cells of column `j` in the rows of data of all sheets, in order.
pub open spec fn sheets_cells(sheets: Seq<Seq<Seq<CellView>>>, j: int) -> Seq<CellView>
    decreases sheets.len(),
{
    if sheets.len() == 0 {
        Seq::empty()
    } else {
        sheets_cells(sheets.drop_last(), j) + column_cells(sheets.last(), j)
    }
}

/// Every row of data of every sheet has `width` cells.
pub open spec fn rows_fit(sheets: Seq<Seq<Seq<CellView>>>, width: int) -> bool {
    forall|s: int, r: int|
        0 <= s < sheets.len() && 1 <= r < sheets[s].len() ==> (#[trigger] sheets[s][r]).len()
            == width
}

/// The cells of a column under a type: their texts, their whole numbers,
/// their numbers with a fraction, or the instants that their texts spell.
pub open spec fn typed_column(data_type: ColumnType, cells: Seq<CellView>) -> ColumnDataView {
    match data_type {
        ColumnType::Utf8 => ColumnDataView::Utf8(cells.map_values(|c: CellView| c.text)),
        ColumnType::Int64 => ColumnDataView::Int64(cells.map_values(|c: CellView| c.int_value)),
        ColumnType::Float64 => ColumnDataView::Float64(
            cells.map_values(|c: CellView| c.float_bits),
        ),
        ColumnType::Timestamp => ColumnDataView::Timestamp(
            cells.map_values(|c: CellView| timestamp_nanos(c.text)),
        ),
    }
}

/// The failure of a row that has more or fewer cells than the header.
pub open spec fn row_width_mismatch() -> ExceptionView {
    unprocessable_entity("Row width does not match the header"@)
}

/// The table that the sheets make. Without a sheet there is no file to
/// read; the first sheet must have a header, and every row of data as
/// many cells as the header.
pub open spec fn batch_of(file_path: Seq<char>, sheets: Seq<Seq<Seq<CellView>>>) -> Result<
    SheetBatchView,
    ExceptionView,
> {
    if sheets.len() == 0 {
        Err(file_not_found(file_path))
    } else if sheets[0].len() == 0 {
        Err(unprocessable_entity("Header not found"@))
    } else {
        let fields = header_schema(sheets[0]);
        if rows_fit(sheets, fields.len() as int) {
            Ok(
                SheetBatchView {
                    fields,
                    columns: Seq::new(
                        fields.len(),
                        |j: int| typed_column(fields[j].data_type, sheets_cells(sheets, j)),
                    ),
                },
            )
        } else {
            Err(row_width_mismatch())
        }
    }
}

/// The number of values of a column.
pub open spec fn column_len(column: ColumnDataView) -> nat {
    match column {
        ColumnDataView::Utf8(values) => values.len(),
        ColumnDataView::Int64(values) => values.len(),
        ColumnDataView::Float64(values) => values.len(),
        ColumnDataView::Timestamp(values) => values.len(),
    }
}

/// The number of rows of data of a sheet: all rows but the first.
pub open spec fn data_rows(rows: Seq<Seq<CellView>>) -> nat {
    if rows.len() == 0 {
        0
    } else {
        (rows.len() - 1) as nat
    }
}

/// The number of rows of data of all sheets together.
pub open spec fn all_data_rows(sheets: Seq<Seq<Seq<CellView>>>) -> nat
    decreases sheets.len(),
{
    if sheets.len() == 0 {
        0
    } else {
        all_data_rows(sheets.drop_last()) + data_rows(sheets.last())
    }
}

/// A column of a sheet has one cell for each row of data.
pub proof fn lemma_column_cells_len(rows: Seq<Seq<CellView>>, j: int)
    ensures
        column_cells(rows, j).len() == data_rows(rows),
    decreases rows.len(),
{
    if rows.len() > 1 {
        lemma_column_cells_len(rows.drop_last(), j);
    }
}

/// A column of several sheets has one cell for each row of data of each
/// sheet.
pub proof fn lemma_sheets_cells_len(sheets: Seq<Seq<Seq<CellView>>>, j: int)
    ensures
        sheets_cells(sheets, j).len() == all_data_rows(sheets),
    decreases sheets.len(),
{
    if sheets.len() > 0 {
        lemma_sheets_cells_len(sheets.drop_last(), j);
        lemma_column_cells_len(sheets.last(), j);
    }
}

/// The table that sheets make has one field for each cell of the header
/// of the first sheet, named by the text of that cell, and one column for
/// each field, with one value for each row of data of each sheet.
pub proof fn lemma_batch_shape(file_path: Seq<char>, sheets: Seq<Seq<Seq<CellView>>>)
    requires
        batch_of(file_path, sheets) is Ok,
    ensures
        ({
            let batch = batch_of(file_path, sheets)->Ok_0;
            &&& batch.fields.len() == sheets[0][0].len()
            &&& batch.columns.len() == batch.fields.len()
            &&& forall|j: int|
                0 <= j < batch.fields.len() ==> (#[trigger] batch.fields[j]).name
                    == sheets[0][0][j].text
            &&& forall|j: int|
                0 <= j < batch.columns.len() ==> column_len(#[trigger] batch.columns[j])
                    == all_data_rows(sheets)
        }),
{
    let batch = batch_of(file_path, sheets)->Ok_0;
    assert forall|j: int| 0 <= j < batch.columns.len() implies column_len(
        #[trigger] batch.columns[j],
    ) == all_data_rows(sheets) by {
        lemma_sheets_cells_len(sheets, j);
    }
}

/// One sheet with a header, and with rows of data as wide as the header,
/// makes a table: the fields are named by the header, and each column has
/// one value for each row of data, taken from the cells of the column
/// under the type of the field.
pub proof fn lemma_single_sheet_batch(file_path: Seq<char>, sheet: Seq<Seq<CellView>>)
    requires
        sheet.len() >= 1,
        forall|r: int| 1 <= r < sheet.len() ==> (#[trigger] sheet[r]).len() == sheet[0].len(),
    ensures
        batch_of(file_path, seq![sheet]) matches Ok(batch) && batch.fields.len()
            == sheet[0].len() && batch.columns.len() == sheet[0].len() && (forall|j: int|
            0 <= j < sheet[0].len() ==> (#[trigger] batch.fields[j]).name == sheet[0][j].text) && (
        forall|j: int|
            0 <= j < sheet[0].len() ==> #[trigger] batch.columns[j] == typed_column(
                batch.fields[j].data_type,
                column_cells(sheet, j),
            ) && column_len(batch.columns[j]) == sheet.len() - 1),
{
    let sheets = seq![sheet];
    assert(rows_fit(sheets, sheet[0].len() as int));
    assert(sheets.drop_last() =~= Seq::<Seq<Seq<CellView>>>::empty());
    lemma_batch_shape(file_path, sheets);
    let batch = batch_of(file_path, sheets)->Ok_0;
    assert forall|j: int| 0 <= j < sheet[0].len() implies #[trigger] batch.columns[j]
        == typed_column(batch.fields[j].data_type, column_cells(sheet, j)) && column_len(
        batch.columns[j],
    ) == sheet.len() - 1 by {
        assert(sheets_cells(sheets.drop_last(), j) =~= Seq::<CellView>::empty());
        assert(sheets_cells(sheets, j) =~= column_cells(sheet, j));
        lemma_column_cells_len(sheet, j);
    }
}

/// Tells whether every row of data of every sheet has `width` cells.
pub fn check_row_widths(sheets: &Vec<Vec<Vec<Cell>>>, width: usize) -> (r: bool)
    ensures
        r == rows_fit(sheets_view(*sheets), width as int),
{
    let ghost all = sheets_view(*sheets);
    let n = sheets.len();
    let mut s: usize = 0;
    while s < n
        invariant
            s <= n,
            n == sheets.len(),
            all == sheets_view(*sheets),
            forall|a: int, b: int|
                0 <= a < s && 1 <= b < all[a].len() ==> (#[trigger] all[a][b]).len() == width,
        decreases n - s,
    {
        let rows = &sheets[s];
        let m = rows.len();
        let mut r: usize = 1;
        while r < m
            invariant
                1 <= r,
                m == rows.len(),
                s < n,
                n == sheets.len(),
                rows == &sheets[s as int],
                all == sheets_view(*sheets),
                all[s as int] == sheet_view(*rows),
                forall|a: int, b: int|
                    0 <= a < s && 1 <= b < all[a].len() ==> (#[trigger] all[a][b]).len() == width,
                forall|b: int| 1 <= b < r && b < m ==> (#[trigger] all[s as int][b]).len() == width,
            decreases m - r,
        {
            proof {
                assert(all[s as int][r as int] == row_view(rows[r as int]));
            }
            if rows[r].len() != width {
                return false;
            }
            r += 1;
        }
        s += 1;
    }
    true
}

/// The cells of column `j` in the rows of data of all sheets, in order.
fn gather_column(sheets: &Vec<Vec<Vec<Cell>>>, width: usize, j: usize) -> (cells: Vec<Cell>)
    requires
        j < width,
        rows_fit(sheets_view(*sheets), width as int),
    ensures
        row_view(cells) == sheets_cells(sheets_view(*sheets), j as int),
{
    let ghost all = sheets_view(*sheets);
    let mut cells: Vec<Cell> = Vec::new();
    let n = sheets.len();
    let mut s: usize = 0;
    while s < n
        invariant
            s <= n,
            n == sheets.len(),
            j < width,
            all == sheets_view(*sheets),
            rows_fit(all, width as int),
            row_view(cells) == sheets_cells(all.subrange(0, s as int), j as int),
        decreases n - s,
    {
        let rows = &sheets[s];
        let m = rows.len();
        let ghost sheet = all[s as int];
        let ghost before = row_view(cells);
        let mut r: usize = 1;
        proof {
            assert(all.subrange(0, s + 1).drop_last() =~= all.subrange(0, s as int));
            if m >= 1 {
            } else {
            }
        }
        while r < m
            invariant
                1 <= r,
                r <= m || m == 0,
                m == rows.len(),
                s < n,
                n == sheets.len(),
                j < width,
                rows == &sheets[s as int],
                all == sheets_view(*sheets),
                sheet == all[s as int],
                sheet == sheet_view(*rows),
                rows_fit(all, width as int),
                row_view(cells) == before + column_cells(
                    sheet.subrange(0, if m == 0 { 0 } else { r as int }),
                    j as int,
                ),
            decreases m - r,
        {
            let ghost upto = sheet.subrange(0, r + 1);
            proof {
                assert(upto.drop_last() =~= sheet.subrange(0, r as int));
                assert(upto.last() == sheet[r as int]);
            }
            let cell = rows[r][j].clone();
            proof {
                assert(row_view(cells).push(cell@) =~= before + column_cells(upto, j as int));
            }
            cells.push(cell);
            r += 1;
        }
        proof {
            if m == 0 {
            } else {
                assert(sheet.subrange(0, m as int) =~= sheet);
            }
        }
        s += 1;
    }
    proof {
        assert(all.subrange(0, n as int) =~= all);
    }
    cells
}

/// The cells of a column under a type.
pub fn project_column(data_type: ColumnType, cells: &Vec<Cell>) -> (column: ColumnData)
    ensures
        column@ == typed_column(data_type, row_view(*cells)),
{
    let n = cells.len();
    let ghost views = row_view(*cells);
    match data_type {
        ColumnType::Utf8 => {
            let mut values: Vec<String> = Vec::new();
            let mut i: usize = 0;
            while i < n
                invariant
                    i <= n,
                    n == cells.len(),
                    values.len() == i,
                    forall|k: int| 0 <= k < i ==> (#[trigger] values[k])@ == cells[k].text@,
                decreases n - i,
            {
                values.push(cells[i].text.clone());
                i += 1;
            }
            assert(texts(values@) =~= views.map_values(|c: CellView| c.text));
            ColumnData::Utf8(values)
        },
        ColumnType::Int64 => {
            let mut values: Vec<Option<i64>> = Vec::new();
            let mut i: usize = 0;
            while i < n
                invariant
                    i <= n,
                    n == cells.len(),
                    values.len() == i,
                    forall|k: int| 0 <= k < i ==> #[trigger] values[k] == cells[k].int_value,
                decreases n - i,
            {
                values.push(cells[i].int_value);
                i += 1;
            }
            assert(values@ =~= views.map_values(|c: CellView| c.int_value));
            ColumnData::Int64(values)
        },
        ColumnType::Float64 => {
            let mut values: Vec<Option<u64>> = Vec::new();
            let mut i: usize = 0;
            while i < n
                invariant
                    i <= n,
                    n == cells.len(),
                    values.len() == i,
                    forall|k: int| 0 <= k < i ==> #[trigger] values[k] == cells[k].float_bits,
                decreases n - i,
            {
                values.push(cells[i].float_bits);
                i += 1;
            }
            assert(values@ =~= views.map_values(|c: CellView| c.float_bits));
            ColumnData::Float64(values)
        },
        ColumnType::Timestamp => {
            let mut values: Vec<Option<i64>> = Vec::new();
            let mut i: usize = 0;
            while i < n
                invariant
                    i <= n,
                    n == cells.len(),
                    values.len() == i,
                    forall|k: int|
                        0 <= k < i ==> #[trigger] values[k] == timestamp_nanos(cells[k].text@),
                decreases n - i,
            {
                values.push(parse_timestamp(cells[i].text.as_str()));
                i += 1;
            }
            assert(values@ =~= views.map_values(|c: CellView| timestamp_nanos(c.text)));
            ColumnData::Timestamp(values)
        },
    }
}

/// The table that the sheets of the files under `file_path` make.
pub fn from_file_to_record_batch(file_path: &str, sheets: &Vec<Vec<Vec<Cell>>>) -> (r: Result<
    SheetBatch,
    Exception,
>)
    ensures
        match batch_of(file_path@, sheets_view(*sheets)) {
            Ok(expected) => r matches Ok(batch) && batch@ == expected,
            Err(failure) => r matches Err(e) && e@ == failure,
        },
{
    let ghost all = sheets_view(*sheets);
    if sheets.len() == 0 {
        return Err(Exception::file_not_found_error(file_path));
    }
    let fields = match get_header_schema(&sheets[0]) {
        Ok(fields) => fields,
        Err(e) => {
            return Err(e);
        },
    };
    let width = fields.len();
    if !check_row_widths(sheets, width) {
        return Err(Exception::unprocessable_entity_error("Row width does not match the header"));
    }
    let ghost schema = header_schema(all[0]);
    let mut columns: Vec<ColumnData> = Vec::new();
    let mut j: usize = 0;
    while j < width
        invariant
            j <= width,
            width == fields.len(),
            all == sheets_view(*sheets),
            schema == field_views(fields@),
            rows_fit(all, width as int),
            columns.len() == j,
            forall|k: int|
                0 <= k < j ==> (#[trigger] columns[k])@ == typed_column(
                    schema[k].data_type,
                    sheets_cells(all, k),
                ),
        decreases width - j,
    {
        let cells = gather_column(sheets, width, j);
        columns.push(project_column(fields[j].data_type, &cells));
        j += 1;
    }
    let batch = SheetBatch { fields, columns };
    proof {
        assert(batch@.columns =~= Seq::new(
            schema.len(),
            |j: int| typed_column(schema[j].data_type, sheets_cells(all, j)),
        ));
    }
    Ok(batch)
}

} // verus!
