use std::io::{Cursor, Read};

use boreal::xlsx::{sheet_xml, workbook, workbook_parts, Cell};

#[test]
fn creates_xlsx_with_both_worksheets() {
    let bytes = workbook(
        &[("View".to_string(), "My Drive".to_string())],
        &["Name", "Link"],
        &[vec![
            Cell::Text("Report".to_string()),
            Cell::Link { url: "https://drive.google.com/open?id=1&x=2".to_string(), label: "Open".to_string() },
        ]],
    )
    .expect("workbook");
    let mut archive = zip::ZipArchive::new(Cursor::new(bytes)).expect("valid archive");
    assert!(archive.by_name("xl/worksheets/sheet1.xml").is_ok());
    assert!(archive.by_name("xl/worksheets/sheet2.xml").is_ok());
}

#[test]
fn stores_the_proved_worksheets_in_the_archive() {
    let context = [("View".to_string(), "My Drive".to_string())];
    let rows = [vec![Cell::Number(42)]];
    let (first, second) = workbook_parts(&context, &["Size"], &rows);
    let bytes = workbook(&context, &["Size"], &rows).expect("workbook");
    let mut archive = zip::ZipArchive::new(Cursor::new(bytes)).expect("valid archive");
    let mut stored = String::new();
    archive.by_name("xl/worksheets/sheet2.xml").unwrap().read_to_string(&mut stored).unwrap();
    assert_eq!(stored, second);
    let mut stored = String::new();
    archive.by_name("xl/worksheets/sheet1.xml").unwrap().read_to_string(&mut stored).unwrap();
    assert_eq!(stored, first);
}

#[test]
fn writes_cells_with_references_escapes_and_links() {
    let xml = sheet_xml(
        &["A&B"],
        &[vec![
            Cell::Text("x<y".to_string()),
            Cell::Number(7),
            Cell::Link { url: "u\"q".to_string(), label: "L".to_string() },
        ]],
    );
    assert!(xml.contains("<c r=\"A1\" t=\"inlineStr\" s=\"1\"><is><t xml:space=\"preserve\">A&amp;B</t></is></c>"));
    assert!(xml.contains("<row r=\"2\"><c r=\"A2\" t=\"inlineStr\"><is><t xml:space=\"preserve\">x&lt;y</t></is></c>"));
    assert!(xml.contains("<c r=\"B2\"><v>7</v></c>"));
    assert!(xml.contains("<c r=\"C2\" s=\"2\"><f>HYPERLINK(&quot;u&quot;&quot;q&quot;,&quot;L&quot;)</f></c>"));
    assert!(xml.ends_with("</sheetData><autoFilter ref=\"A1:A2\"/></worksheet>"));
}

#[test]
fn columns_past_z_use_two_letters() {
    let headers: Vec<&str> = vec!["h"; 28];
    let xml = sheet_xml(&headers, &[]);
    assert!(xml.contains("<c r=\"Z1\""));
    assert!(xml.contains("<c r=\"AA1\""));
    assert!(xml.contains("<c r=\"AB1\""));
    assert!(xml.ends_with("ref=\"A1:AB1\"/></worksheet>"));
}

#[test]
fn control_characters_are_dropped_from_text() {
    let xml = sheet_xml(&["a\u{1}b\tc"], &[]);
    assert!(xml.contains(">ab\tc</t>"));
}

#[test]
fn same_sheets_give_the_same_archive_in_entry_order() {
    let context = [("View".to_string(), "Shared Drives".to_string())];
    let rows = [vec![Cell::Text("a & b".to_string()), Cell::Number(7)]];
    let first = workbook(&context, &["Name", "Size"], &rows).expect("workbook");
    let second = workbook(&context, &["Name", "Size"], &rows).expect("workbook");
    assert_eq!(first, second);
    let mut archive = zip::ZipArchive::new(Cursor::new(first)).expect("valid archive");
    let names: Vec<String> = (0..archive.len()).map(|i| archive.by_index(i).unwrap().name().to_string()).collect();
    assert_eq!(
        names,
        vec![
            "[Content_Types].xml",
            "_rels/.rels",
            "xl/workbook.xml",
            "xl/_rels/workbook.xml.rels",
            "xl/styles.xml",
            "xl/worksheets/sheet1.xml",
            "xl/worksheets/sheet2.xml",
        ]
    );
}
