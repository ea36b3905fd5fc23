//! Spreadsheet exports: a workbook with a "Report Context" sheet and a
//! "Results" sheet, written as SpreadsheetML parts inside a zip archive.
//!
//! The worksheet XML is built and proved here; the archive is written by the
//! `zip` crate.
use vstd::prelude::*;
use vstd::string::StringSliceAdditionalSpecFns;

use crate::text::{chars_of, decimal, push_chars, push_decimal, push_str, string_of};

verus! {

/// An archive being written into memory.  `zip::ZipWriter` is bounded by
/// `std::io::Write + Seek`, which Verus does not know, so the writer is held
/// here, opaque, and only the wrappers below touch it.
#[verifier::external_body]
pub struct ArchiveWriter {
    inner: zip::ZipWriter<std::io::Cursor<Vec<u8>>>,
}

#[verifier::external_type_specification]
#[verifier::external_body]
pub struct ExZipError(zip::result::ZipError);

/// What an archive writer holds so far: each entry's name and the bytes
/// written into it, in the order the entries were started.
pub uninterp spec fn archive_entries(writer: ArchiveWriter) -> Seq<(Seq<char>, Seq<u8>)>;

/// Whether the writer's last entry is open for writing (started and not
/// aborted).
pub uninterp spec fn entry_open(writer: ArchiveWriter) -> bool;

/// The size below which an entry needs no ZIP64 fields: the writer refuses
/// to grow an entry past 4 GiB without them, so entries stay at half that.
pub open spec fn small_entry(bytes: Seq<u8>) -> bool {
    bytes.len() < 0x8000_0000
}

/// No entry bears `name`, and every entry is small.
pub open spec fn room_for(entries: Seq<(Seq<char>, Seq<u8>)>, name: Seq<char>) -> bool {
    forall|i: int| 0 <= i < entries.len() ==> (#[trigger] entries[i]).0 != name && small_entry(entries[i].1)
}

/// The bytes `ZipWriter::finish` hands back for an archive holding these
/// entries.  Built without the crate's `time` feature, every entry is dated
/// 1980-01-01 and written with the default options (deflated), so the bytes
/// depend on the entries alone.
pub uninterp spec fn zip_archive(entries: Seq<(Seq<char>, Seq<u8>)>) -> Seq<u8>;

/// A new archive writer over an empty in-memory buffer (`ZipWriter::new`):
/// it holds no entry.
#[verifier::external_body]
fn zip_writer() -> (writer: ArchiveWriter)
    ensures
        archive_entries(writer) == Seq::<(Seq<char>, Seq<u8>)>::empty(),
        !entry_open(writer),
{
    ArchiveWriter { inner: zip::ZipWriter::new(std::io::Cursor::new(Vec::new())) }
}

/// Starts the next archive entry with default options (`ZipWriter::start_file`):
/// when it succeeds, the writer holds one more entry, named `name`, empty and
/// open.  On an in-memory buffer it fails only for a name already used, or
/// when closing the previous entry finds it past 4 GiB; it panics on a name
/// longer than 65535 bytes, which a name of at most 16383 characters is not.
#[verifier::external_body]
fn zip_start_file(writer: &mut ArchiveWriter, name: &str) -> (result: Result<(), zip::result::ZipError>)
    requires
        name@.len() <= 16383,
    ensures
        result is Ok ==> archive_entries(*final(writer)) == archive_entries(*old(writer)).push(
            (name@, Seq::<u8>::empty()),
        ),
        result is Ok ==> entry_open(*final(writer)),
        room_for(archive_entries(*old(writer)), name@) ==> result is Ok,
{
    writer.inner.start_file(name, zip::write::SimpleFileOptions::default())
}

/// Writes bytes into the current entry (`Write::write_all` on the writer),
/// an I/O failure carried as `ZipError::Io` as the crate converts it.  When it
/// succeeds after an entry was started, that last entry ends with `bytes`.
/// On an in-memory buffer it fails only when no entry is open, or when the
/// entry would pass 4 GiB.
#[verifier::external_body]
fn zip_write(writer: &mut ArchiveWriter, bytes: &[u8]) -> (result: Result<(), zip::result::ZipError>)
    ensures
        (archive_entries(*old(writer)).len() > 0 && result is Ok) ==> archive_entries(*final(writer))
            == appended_to_last(archive_entries(*old(writer)), bytes@),
        result is Ok ==> entry_open(*final(writer)) == entry_open(*old(writer)),
        (entry_open(*old(writer)) && archive_entries(*old(writer)).len() > 0 && small_entry(
            archive_entries(*old(writer)).last().1 + bytes@,
        )) ==> result is Ok,
{
    std::io::Write::write_all(&mut writer.inner, bytes).map_err(zip::result::ZipError::from)
}

/// Finishes the archive (`ZipWriter::finish`) and hands back its bytes.  On
/// an in-memory buffer it fails only when closing the last entry finds it
/// past 4 GiB.
#[verifier::external_body]
fn zip_finish(writer: ArchiveWriter) -> (result: Result<Vec<u8>, zip::result::ZipError>)
    ensures
        result matches Ok(b) ==> b@ == zip_archive(archive_entries(writer)),
        (forall|i: int|
            0 <= i < archive_entries(writer).len() ==> small_entry((#[trigger] archive_entries(writer)[i]).1))
            ==> result is Ok,
{
    writer.inner.finish().map(|cursor| cursor.into_inner())
}

/// The display text of a zip error (`ZipError`'s `Display`).
#[verifier::external_body]
fn zip_error_text(error: &zip::result::ZipError) -> (result: String) {
    error.to_string()
}

/// One cell of a result row.
#[derive(Debug, Clone)]
pub enum Cell {
    Text(String),
    Number(u64),
    Link { url: String, label: String },
}

/// Why a workbook could not be written.
#[derive(Debug, Clone)]
pub struct WorkbookError {
    pub message: String,
}

/// Spreadsheet column letters: A..Z, then AA, AB, ...
pub open spec fn column_letters(column: nat) -> Seq<char>
    decreases column,
{
    if column < 26 {
        seq![(('A' as u8) + column) as char]
    } else {
        column_letters((column / 26 - 1) as nat).push((('A' as u8) + column % 26) as char)
    }
}

/// A cell reference such as `B7`.
pub open spec fn cell_reference(column: nat, row: nat) -> Seq<char> {
    column_letters(column) + decimal(row)
}

/// The text of `s` made safe for XML: characters below U+0020 other than
/// tab, line feed and carriage return are dropped, and the five markup
/// characters become entities.
pub open spec fn xml_escaped(s: Seq<char>) -> Seq<char>
    decreases s.len(),
{
    if s.len() == 0 {
        Seq::empty()
    } else {
        xml_escaped(s.drop_last()) + escaped_char(s.last())
    }
}

pub open spec fn escaped_char(c: char) -> Seq<char> {
    if c == '&' {
        "&amp;"@
    } else if c == '<' {
        "&lt;"@
    } else if c == '>' {
        "&gt;"@
    } else if c == '"' {
        "&quot;"@
    } else if c == '\'' {
        "&apos;"@
    } else if c == '\t' || c == '\n' || c == '\r' || c >= ' ' {
        seq![c]
    } else {
        Seq::empty()
    }
}

/// `s` with every `"` doubled, as a quoted formula argument needs.
pub open spec fn quotes_doubled(s: Seq<char>) -> Seq<char>
    decreases s.len(),
{
    if s.len() == 0 {
        Seq::empty()
    } else {
        quotes_doubled(s.drop_last()) + if s.last() == '"' {
            seq!['"', '"']
        } else {
            seq![s.last()]
        }
    }
}

/// An inline text cell; header cells carry the bold style.
pub open spec fn text_cell(column: nat, row: nat, value: Seq<char>, header: bool) -> Seq<char> {
    "<c r=\""@ + cell_reference(column, row) + "\" t=\"inlineStr\""@ + (if header {
        " s=\"1\""@
    } else {
        Seq::empty()
    }) + "><is><t xml:space=\"preserve\">"@ + xml_escaped(value) + "</t></is></c>"@
}

/// The XML of one cell.
pub open spec fn cell_xml(column: nat, row: nat, cell: Cell) -> Seq<char> {
    match cell {
        Cell::Text(value) => text_cell(column, row, value@, false),
        Cell::Number(value) => "<c r=\""@ + cell_reference(column, row) + "\"><v>"@ + decimal(value as nat)
            + "</v></c>"@,
        Cell::Link { url, label } => "<c r=\""@ + cell_reference(column, row)
            + "\" s=\"2\"><f>HYPERLINK(&quot;"@ + xml_escaped(quotes_doubled(url@)) + "&quot;,&quot;"@
            + xml_escaped(quotes_doubled(label@)) + "&quot;)</f></c>"@,
    }
}

/// The header cells of the first row.
pub open spec fn header_cells(headers: Seq<&str>) -> Seq<char>
    decreases headers.len(),
{
    if headers.len() == 0 {
        Seq::empty()
    } else {
        header_cells(headers.drop_last()) + text_cell((headers.len() - 1) as nat, 1, headers.last()@, true)
    }
}

/// The cells of a row, left to right.
pub open spec fn row_cells(cells: Seq<Cell>, row: nat) -> Seq<char>
    decreases cells.len(),
{
    if cells.len() == 0 {
        Seq::empty()
    } else {
        row_cells(cells.drop_last(), row) + cell_xml((cells.len() - 1) as nat, row, cells.last())
    }
}

/// The data rows, numbered from 2.
pub open spec fn data_rows(rows: Seq<Vec<Cell>>) -> Seq<char>
    decreases rows.len(),
{
    if rows.len() == 0 {
        Seq::empty()
    } else {
        let row = (rows.len() + 1) as nat;
        data_rows(rows.drop_last()) + "<row r=\""@ + decimal(row) + "\">"@ + row_cells(rows.last()@, row)
            + "</row>"@
    }
}

pub open spec fn sheet_head() -> Seq<char> {
    "<?xml version=\"1.0\" encoding=\"UTF-8\" standalone=\"yes\"?><worksheet xmlns=\"http://schemas.openxmlformats.org/spreadsheetml/2006/main\"><sheetViews><sheetView workbookViewId=\"0\"><pane ySplit=\"1\" topLeftCell=\"A2\" activePane=\"bottomLeft\" state=\"frozen\"/></sheetView></sheetViews><sheetData><row r=\"1\">"@
}

/// A worksheet with a frozen, filterable header row over the data rows.
pub open spec fn sheet_text(headers: Seq<&str>, rows: Seq<Vec<Cell>>) -> Seq<char> {
    let last_column = if headers.len() >= 1 { (headers.len() - 1) as nat } else { 0 };
    sheet_head() + header_cells(headers) + "</row>"@ + data_rows(rows) + "</sheetData><autoFilter ref=\"A1:"@
        + cell_reference(last_column, (rows.len() + 1) as nat) + "\"/></worksheet>"@
}

fn push_column_letters(v: &mut Vec<char>, column: usize)
    ensures
        final(v)@ == old(v)@ + column_letters(column as nat),
    decreases column,
{
    if column >= 26 {
        push_column_letters(v, column / 26 - 1);
    }
    let letter = ((65u8 + (column % 26) as u8) as char);
    v.push(letter);
    assert(final(v)@ =~= old(v)@ + column_letters(column as nat));
}

fn push_reference(v: &mut Vec<char>, column: usize, row: usize)
    ensures
        final(v)@ == old(v)@ + cell_reference(column as nat, row as nat),
{
    push_column_letters(v, column);
    push_decimal(v, row as u64);
    assert(final(v)@ =~= old(v)@ + cell_reference(column as nat, row as nat));
}

fn push_escaped(v: &mut Vec<char>, s: &[char])
    ensures
        final(v)@ == old(v)@ + xml_escaped(s@),
{
    let ghost start = v@;
    let mut i: usize = 0;
    while i < s.len()
        invariant
            i <= s@.len(),
            v@ == start + xml_escaped(s@.subrange(0, i as int)),
        decreases s.len() - i,
    {
        let c = s[i];
        assert(s@.subrange(0, i + 1).drop_last() =~= s@.subrange(0, i as int));
        if c == '&' {
            push_str(v, "&amp;");
        } else if c == '<' {
            push_str(v, "&lt;");
        } else if c == '>' {
            push_str(v, "&gt;");
        } else if c == '"' {
            push_str(v, "&quot;");
        } else if c == '\'' {
            push_str(v, "&apos;");
        } else if c == '\t' || c == '\n' || c == '\r' || c >= ' ' {
            v.push(c);
        }
        assert(v@ =~= start + xml_escaped(s@.subrange(0, i + 1)));
        i = i + 1;
    }
    assert(s@.subrange(0, s@.len() as int) =~= s@);
}

fn doubled_quotes(s: &str) -> (result: Vec<char>)
    ensures
        result@ == quotes_doubled(s@),
{
    let chars = chars_of(s);
    let mut out: Vec<char> = Vec::new();
    let mut i: usize = 0;
    while i < chars.len()
        invariant
            i <= chars@.len(),
            chars@ == s@,
            out@ == quotes_doubled(chars@.subrange(0, i as int)),
        decreases chars.len() - i,
    {
        assert(chars@.subrange(0, i + 1).drop_last() =~= chars@.subrange(0, i as int));
        if chars[i] == '"' {
            out.push('"');
            out.push('"');
        } else {
            out.push(chars[i]);
        }
        assert(out@ =~= quotes_doubled(chars@.subrange(0, i + 1)));
        i = i + 1;
    }
    assert(chars@.subrange(0, chars@.len() as int) =~= chars@);
    out
}

fn push_text_cell(v: &mut Vec<char>, column: usize, row: usize, value: &str, header: bool)
    ensures
        final(v)@ == old(v)@ + text_cell(column as nat, row as nat, value@, header),
{
    push_str(v, "<c r=\"");
    push_reference(v, column, row);
    push_str(v, "\" t=\"inlineStr\"");
    if header {
        push_str(v, " s=\"1\"");
    }
    push_str(v, "><is><t xml:space=\"preserve\">");
    let chars = chars_of(value);
    push_escaped(v, chars.as_slice());
    push_str(v, "</t></is></c>");
    assert(final(v)@ =~= old(v)@ + text_cell(column as nat, row as nat, value@, header));
}

fn push_cell(v: &mut Vec<char>, column: usize, row: usize, cell: &Cell)
    ensures
        final(v)@ == old(v)@ + cell_xml(column as nat, row as nat, *cell),
{
    match cell {
        Cell::Text(value) => push_text_cell(v, column, row, value.as_str(), false),
        Cell::Number(value) => {
            push_str(v, "<c r=\"");
            push_reference(v, column, row);
            push_str(v, "\"><v>");
            push_decimal(v, *value);
            push_str(v, "</v></c>");
            assert(final(v)@ =~= old(v)@ + cell_xml(column as nat, row as nat, *cell));
        },
        Cell::Link { url, label } => {
            push_str(v, "<c r=\"");
            push_reference(v, column, row);
            push_str(v, "\" s=\"2\"><f>HYPERLINK(&quot;");
            let u = doubled_quotes(url.as_str());
            push_escaped(v, u.as_slice());
            push_str(v, "&quot;,&quot;");
            let l = doubled_quotes(label.as_str());
            push_escaped(v, l.as_slice());
            push_str(v, "&quot;)</f></c>");
            assert(final(v)@ =~= old(v)@ + cell_xml(column as nat, row as nat, *cell));
        },
    }
}

/// The XML of a worksheet: the header row, then one row per result row.
pub fn sheet_xml(headers: &[&str], rows: &[Vec<Cell>]) -> (xml: String)
    requires
        rows@.len() + 2 <= usize::MAX,
    ensures
        xml@ == sheet_text(headers@, rows@),
{
    let mut v: Vec<char> = Vec::new();
    push_str(
        &mut v,
        "<?xml version=\"1.0\" encoding=\"UTF-8\" standalone=\"yes\"?><worksheet xmlns=\"http://schemas.openxmlformats.org/spreadsheetml/2006/main\"><sheetViews><sheetView workbookViewId=\"0\"><pane ySplit=\"1\" topLeftCell=\"A2\" activePane=\"bottomLeft\" state=\"frozen\"/></sheetView></sheetViews><sheetData><row r=\"1\">",
    );
    let ghost head = v@;
    let mut column: usize = 0;
    while column < headers.len()
        invariant
            column <= headers@.len(),
            v@ == head + header_cells(headers@.subrange(0, column as int)),
        decreases headers.len() - column,
    {
        assert(headers@.subrange(0, column + 1).drop_last() =~= headers@.subrange(0, column as int));
        push_text_cell(&mut v, column, 1, headers[column], true);
        column = column + 1;
    }
    assert(headers@.subrange(0, headers@.len() as int) =~= headers@);
    push_str(&mut v, "</row>");
    let ghost before_rows = v@;
    let mut index: usize = 0;
    while index < rows.len()
        invariant
            index <= rows@.len(),
            rows@.len() + 2 <= usize::MAX,
            v@ == before_rows + data_rows(rows@.subrange(0, index as int)),
        decreases rows.len() - index,
    {
        let ghost at_row = v@;
        let row_number = index + 2;
        push_str(&mut v, "<row r=\"");
        push_decimal(&mut v, row_number as u64);
        push_str(&mut v, "\">");
        let ghost row_start = v@;
        let row = &rows[index];
        let mut column: usize = 0;
        while column < row.len()
            invariant
                column <= row@.len(),
                v@ == row_start + row_cells(row@.subrange(0, column as int), row_number as nat),
            decreases row.len() - column,
        {
            assert(row@.subrange(0, column + 1).drop_last() =~= row@.subrange(0, column as int));
            push_cell(&mut v, column, row_number, &row[column]);
            column = column + 1;
        }
        assert(row@.subrange(0, row@.len() as int) =~= row@);
        push_str(&mut v, "</row>");
        assert(rows@.subrange(0, index + 1).drop_last() =~= rows@.subrange(0, index as int));
        assert(v@ =~= before_rows + data_rows(rows@.subrange(0, index + 1)));
        index = index + 1;
    }
    assert(rows@.subrange(0, rows@.len() as int) =~= rows@);
    push_str(&mut v, "</sheetData><autoFilter ref=\"A1:");
    let last_column: usize = if headers.len() >= 1 { headers.len() - 1 } else { 0 };
    push_reference(&mut v, last_column, rows.len() + 1);
    push_str(&mut v, "\"/></worksheet>");
    proof {
        reveal_strlit(
            "<?xml version=\"1.0\" encoding=\"UTF-8\" standalone=\"yes\"?><worksheet xmlns=\"http://schemas.openxmlformats.org/spreadsheetml/2006/main\"><sheetViews><sheetView workbookViewId=\"0\"><pane ySplit=\"1\" topLeftCell=\"A2\" activePane=\"bottomLeft\" state=\"frozen\"/></sheetView></sheetViews><sheetData><row r=\"1\">",
        );
    }
    assert(v@ =~= sheet_text(headers@, rows@));
    string_of(v.as_slice())
}

pub const CONTENT_TYPES: &'static str = "<?xml version=\"1.0\" encoding=\"UTF-8\"?><Types xmlns=\"http://schemas.openxmlformats.org/package/2006/content-types\"><Default Extension=\"rels\" ContentType=\"application/vnd.openxmlformats-package.relationships+xml\"/><Default Extension=\"xml\" ContentType=\"application/xml\"/><Override PartName=\"/xl/workbook.xml\" ContentType=\"application/vnd.openxmlformats-officedocument.spreadsheetml.sheet.main+xml\"/><Override PartName=\"/xl/worksheets/sheet1.xml\" ContentType=\"application/vnd.openxmlformats-officedocument.spreadsheetml.worksheet+xml\"/><Override PartName=\"/xl/worksheets/sheet2.xml\" ContentType=\"application/vnd.openxmlformats-officedocument.spreadsheetml.worksheet+xml\"/><Override PartName=\"/xl/styles.xml\" ContentType=\"application/vnd.openxmlformats-officedocument.spreadsheetml.styles+xml\"/></Types>";

pub const ROOT_RELS: &'static str = "<?xml version=\"1.0\" encoding=\"UTF-8\"?><Relationships xmlns=\"http://schemas.openxmlformats.org/package/2006/relationships\"><Relationship Id=\"rId1\" Type=\"http://schemas.openxmlformats.org/officeDocument/2006/relationships/officeDocument\" Target=\"xl/workbook.xml\"/></Relationships>";

pub const WORKBOOK: &'static str = "<?xml version=\"1.0\" encoding=\"UTF-8\"?><workbook xmlns=\"http://schemas.openxmlformats.org/spreadsheetml/2006/main\" xmlns:r=\"http://schemas.openxmlformats.org/officeDocument/2006/relationships\"><sheets><sheet name=\"Report Context\" sheetId=\"1\" r:id=\"rId1\"/><sheet name=\"Results\" sheetId=\"2\" r:id=\"rId2\"/></sheets></workbook>";

pub const WORKBOOK_RELS: &'static str = "<?xml version=\"1.0\" encoding=\"UTF-8\"?><Relationships xmlns=\"http://schemas.openxmlformats.org/package/2006/relationships\"><Relationship Id=\"rId1\" Type=\"http://schemas.openxmlformats.org/officeDocument/2006/relationships/worksheet\" Target=\"worksheets/sheet1.xml\"/><Relationship Id=\"rId2\" Type=\"http://schemas.openxmlformats.org/officeDocument/2006/relationships/worksheet\" Target=\"worksheets/sheet2.xml\"/><Relationship Id=\"rId3\" Type=\"http://schemas.openxmlformats.org/officeDocument/2006/relationships/styles\" Target=\"styles.xml\"/></Relationships>";

pub const STYLES: &'static str = "<?xml version=\"1.0\" encoding=\"UTF-8\"?><styleSheet xmlns=\"http://schemas.openxmlformats.org/spreadsheetml/2006/main\"><fonts count=\"3\"><font/><font><b/></font><font><u/><color rgb=\"FF0563C1\"/></font></fonts><fills count=\"2\"><fill><patternFill patternType=\"none\"/></fill><fill><patternFill patternType=\"gray125\"/></fill></fills><borders count=\"1\"><border/></borders><cellStyleXfs count=\"1\"><xf/></cellStyleXfs><cellXfs count=\"3\"><xf/><xf fontId=\"1\" applyFont=\"1\"/><xf fontId=\"2\" applyFont=\"1\"/></cellXfs></styleSheet>";

/// The rows of the context sheet: one per setting.
pub open spec fn context_rows_are(rows: Seq<Vec<Cell>>, context: Seq<(String, String)>) -> bool {
    &&& rows.len() == context.len()
    &&& forall|i: int| 0 <= i < rows.len() ==> #[trigger] setting_row(rows[i]@, context[i])
}

/// A context row: the setting's name and value as text cells.
pub open spec fn setting_row(row: Seq<Cell>, setting: (String, String)) -> bool {
    &&& row.len() == 2
    &&& (row[0] matches Cell::Text(k) && k@ == setting.0@)
    &&& (row[1] matches Cell::Text(v) && v@ == setting.1@)
}

fn context_rows(context: &[(String, String)]) -> (rows: Vec<Vec<Cell>>)
    ensures
        context_rows_are(rows@, context@),
{
    let mut rows: Vec<Vec<Cell>> = Vec::new();
    let mut i: usize = 0;
    while i < context.len()
        invariant
            i <= context@.len(),
            context_rows_are(rows@, context@.subrange(0, i as int)),
        decreases context.len() - i,
    {
        let row = vec![Cell::Text(context[i].0.clone()), Cell::Text(context[i].1.clone())];
        rows.push(row);
        i = i + 1;
    }
    assert(context@.subrange(0, context@.len() as int) =~= context@);
    rows
}

/// Entries with `bytes` added at the end of the last one.
pub open spec fn appended_to_last(entries: Seq<(Seq<char>, Seq<u8>)>, bytes: Seq<u8>) -> Seq<(Seq<char>, Seq<u8>)> {
    entries.update(entries.len() - 1, (entries.last().0, entries.last().1 + bytes))
}

fn add_entry(writer: &mut ArchiveWriter, name: &str, contents: &str) -> (result:
    Result<(), WorkbookError>)
    requires
        name@.len() <= 16383,
    ensures
        result is Ok ==> archive_entries(*final(writer)) == archive_entries(*old(writer)).push(
            (name@, contents.spec_bytes()),
        ),
        (room_for(archive_entries(*old(writer)), name@) && small_entry(contents.spec_bytes())) ==> result is Ok,
{
    match zip_start_file(writer, name) {
        Ok(()) => {},
        Err(e) => return Err(WorkbookError { message: zip_error_text(&e) }),
    }
    let ghost started = archive_entries(*writer);
    assert(started.len() > 0);
    assert(Seq::<u8>::empty() + contents.spec_bytes() =~= contents.spec_bytes());
    match zip_write(writer, contents.as_bytes()) {
        Ok(()) => {
            assert(archive_entries(*writer) =~= archive_entries(*old(writer)).push(
                (name@, contents.spec_bytes()),
            ));
            Ok(())
        },
        Err(e) => Err(WorkbookError { message: zip_error_text(&e) }),
    }
}

/// The worksheets of a workbook: the context sheet, then the results sheet.
pub open spec fn workbook_sheets(
    context_sheet: Seq<char>,
    results_sheet: Seq<char>,
    context: Seq<(String, String)>,
    headers: Seq<&str>,
    rows: Seq<Vec<Cell>>,
) -> bool {
    &&& exists|c: Seq<Vec<Cell>>| context_rows_are(c, context) && context_sheet == sheet_text(
        seq!["Setting", "Value"],
        c,
    )
    &&& results_sheet == sheet_text(headers, rows)
}

/// The two worksheets a workbook holds, as XML.
pub fn workbook_parts(context: &[(String, String)], headers: &[&str], rows: &[Vec<Cell>]) -> (parts: (
    String,
    String,
))
    requires
        context@.len() + 2 <= usize::MAX,
        rows@.len() + 2 <= usize::MAX,
    ensures
        workbook_sheets(parts.0@, parts.1@, context@, headers@, rows@),
{
    let context_table = context_rows(context);
    let names = ["Setting", "Value"];
    assert(names@ =~= seq!["Setting", "Value"]);
    let first = sheet_xml(&names, context_table.as_slice());
    let second = sheet_xml(headers, rows);
    (first, second)
}

/// The parts of a workbook archive, in the order they are written, with the
/// two worksheets given as XML.
pub open spec fn workbook_entries(context_sheet: Seq<char>, results_sheet: Seq<char>) -> Seq<
    (Seq<char>, Seq<u8>),
> {
    seq![
        ("[Content_Types].xml"@, CONTENT_TYPES.spec_bytes()),
        ("_rels/.rels"@, ROOT_RELS.spec_bytes()),
        ("xl/workbook.xml"@, WORKBOOK.spec_bytes()),
        ("xl/_rels/workbook.xml.rels"@, WORKBOOK_RELS.spec_bytes()),
        ("xl/styles.xml"@, STYLES.spec_bytes()),
        ("xl/worksheets/sheet1.xml"@, vstd::utf8::encode_utf8(context_sheet)),
        ("xl/worksheets/sheet2.xml"@, vstd::utf8::encode_utf8(results_sheet)),
    ]
}

/// An `.xlsx` workbook with a "Report Context" sheet listing `context` as
/// setting and value, and a "Results" sheet with `headers` over `rows`.
/// The sheets are those of `workbook_parts`; the archive around them is
/// written by the `zip` crate, which may fail.
pub fn workbook(context: &[(String, String)], headers: &[&str], rows: &[Vec<Cell>]) -> (result: Result<
    Vec<u8>,
    WorkbookError,
>)
    requires
        context@.len() + 2 <= usize::MAX,
        rows@.len() + 2 <= usize::MAX,
    ensures
        result matches Ok(b) ==> exists|context_sheet: Seq<char>, results_sheet: Seq<char>|
            workbook_sheets(context_sheet, results_sheet, context@, headers@, rows@) && b@ == zip_archive(
                #[trigger] workbook_entries(context_sheet, results_sheet),
            ),
        result is Err ==> exists|context_sheet: Seq<char>, results_sheet: Seq<char>|
            workbook_sheets(context_sheet, results_sheet, context@, headers@, rows@) && !all_small(
                #[trigger] workbook_entries(context_sheet, results_sheet),
            ),
{
    let (context_sheet, results_sheet) = workbook_parts(context, headers, rows);
    let ghost entries = workbook_entries(context_sheet@, results_sheet@);
    let names: [&str; 7] = [
        "[Content_Types].xml",
        "_rels/.rels",
        "xl/workbook.xml",
        "xl/_rels/workbook.xml.rels",
        "xl/styles.xml",
        "xl/worksheets/sheet1.xml",
        "xl/worksheets/sheet2.xml",
    ];
    let parts: [&str; 7] = [
        CONTENT_TYPES,
        ROOT_RELS,
        WORKBOOK,
        WORKBOOK_RELS,
        STYLES,
        context_sheet.as_str(),
        results_sheet.as_str(),
    ];
    proof {
        reveal_strlit("[Content_Types].xml");
        reveal_strlit("_rels/.rels");
        reveal_strlit("xl/workbook.xml");
        reveal_strlit("xl/_rels/workbook.xml.rels");
        reveal_strlit("xl/styles.xml");
        reveal_strlit("xl/worksheets/sheet1.xml");
        reveal_strlit("xl/worksheets/sheet2.xml");
        assert("xl/worksheets/sheet1.xml"@[19] != "xl/worksheets/sheet2.xml"@[19]);
        assert(entries.len() == 7);
        assert forall|k: int| 0 <= k < 7 implies (#[trigger] entries[k]).0 == names@[k]@ && entries[k].1
            == parts@[k].spec_bytes() && names@[k]@.len() <= 16383 by {}
        assert forall|i: int, j: int| 0 <= i < j < 7 implies (#[trigger] entries[i]).0 != (#[trigger] entries[j]).0 by {
            if i == 5 && j == 6 {
                assert(entries[i].0[19] != entries[j].0[19]);
            } else {
                assert(entries[i].0.len() != entries[j].0.len());
            }
        }
    }
    let mut writer = zip_writer();
    let mut k: usize = 0;
    while k < 7
        invariant
            k <= 7,
            entries.len() == 7,
            archive_entries(writer) == entries.subrange(0, k as int),
            forall|m: int| 0 <= m < 7 ==> (#[trigger] entries[m]).0 == names@[m]@ && entries[m].1
                == parts@[m].spec_bytes() && names@[m]@.len() <= 16383,
            forall|i: int, j: int| 0 <= i < j < 7 ==> (#[trigger] entries[i]).0 != (#[trigger] entries[j]).0,
            workbook_sheets(context_sheet@, results_sheet@, context@, headers@, rows@),
            entries == workbook_entries(context_sheet@, results_sheet@),
        decreases 7 - k,
    {
        let ghost before = entries.subrange(0, k as int);
        if let Err(e) = add_entry(&mut writer, names[k], parts[k]) {
            proof {
                if all_small(entries) {
                    assert(small_entry(entries[k as int].1));
                    assert forall|i: int| 0 <= i < before.len() implies (#[trigger] before[i]).0 != names@[k as int]@
                        && small_entry(before[i].1) by {
                        assert(before[i] == entries[i]);
                    }
                }
            }
            return Err(e);
        }
        assert(entries.subrange(0, k + 1) =~= before.push((names@[k as int]@, parts@[k as int].spec_bytes())));
        k = k + 1;
    }
    assert(entries.subrange(0, 7) =~= entries);
    match zip_finish(writer) {
        Ok(bytes) => Ok(bytes),
        Err(e) => Err(WorkbookError { message: zip_error_text(&e) }),
    }
}

/// Every entry is below the size that needs ZIP64 fields.
pub open spec fn all_small(entries: Seq<(Seq<char>, Seq<u8>)>) -> bool {
    forall|i: int| 0 <= i < entries.len() ==> small_entry(#[trigger] entries[i].1)
}

} // verus!
