use xtap_core::drop::Drop;
use xtap_core::reader::Format as SourceFormat;
use xtap_core::{Field, Record, Trim};

#[test]
fn record_get_len_and_emptiness() {
    let r = Record::from_csv(vec![b"a".to_vec(), Vec::new()]);
    assert_eq!(r.len(), 2);
    assert!(!r.is_empty());
    assert!(r.is_csv());
    assert_eq!(r.get(1), Some(Field::Binary(Vec::new())));
    assert_eq!(r.get(2), None);
    assert!(r.is_empty_at(1));
    assert!(!r.is_empty_at(0));
    assert!(!r.is_empty_at(5));
    assert!(Record::from_cells(Vec::new()).is_empty());
}

#[test]
fn field_emptiness() {
    assert!(Field::Empty.is_empty());
    assert!(Field::Binary(Vec::new()).is_empty());
    assert!(!Field::String(String::new()).is_empty());
    assert!(!Field::Int(0).is_empty());
}

#[test]
fn without_columns_keeps_kind_and_order() {
    let r = Record::from_cells(vec![Field::Int(1), Field::Int(2), Field::Int(3)]);
    let cut = r.without_columns(&vec![1, 7]);
    assert!(!cut.is_csv());
    assert_eq!(cut.iter(), vec![Field::Int(1), Field::Int(3)]);
}

#[test]
fn trimmed_record_trims_binary_and_string_fields() {
    let r = Record::from_cells(vec![
        Field::Binary(b" x\t".to_vec()),
        Field::String(" y ".to_string()),
        Field::Float(" 1.5".to_string()),
    ]);
    assert_eq!(
        r.trimmed().iter(),
        vec![Field::Binary(b"x".to_vec()), Field::String("y".to_string()), Field::Float(" 1.5".to_string())]
    );
}

#[test]
fn trim_modes() {
    assert!(Trim::All.should_trim_fields() && Trim::All.should_trim_headers());
    assert!(Trim::Fields.should_trim_fields() && !Trim::Fields.should_trim_headers());
    assert!(!Trim::Headers.should_trim_fields() && Trim::Headers.should_trim_headers());
    assert!(!Trim::Preserve.should_trim_fields() && !Trim::Preserve.should_trim_headers());
    assert_eq!(Trim::default(), Trim::Preserve);
}

#[test]
fn drop_builder_sets_fields() {
    let d = Drop::new().drop_head(2).drop_tail(1).drop_non_max_length(true);
    let d = d.drop_length_less_than(3).drop_fields_empty(vec![0]).drop_columns(vec![1]);
    let e = Drop::new().drop_columns(vec![1]).drop_fields_empty(vec![0]).drop_length_less_than(3);
    let e = e.drop_non_max_length(true).drop_tail(1).drop_head(2);
    assert_eq!(d, e);
    assert_ne!(d, Drop::new());
}

#[test]
fn format_detection_by_content_and_extension() {
    let ole = [0xD0u8, 0xCF, 0x11, 0xE0, 0xA1, 0xB1, 0x1A, 0xE1, 0];
    let zip = [0x50u8, 0x4B, 0x03, 0x04, 0x14];
    assert_eq!(SourceFormat::detect("xls", &ole), SourceFormat::Xls);
    assert_eq!(SourceFormat::detect("bin", &ole), SourceFormat::Xls);
    assert_eq!(SourceFormat::detect("xlsx", &zip), SourceFormat::Xlsx);
    assert_eq!(SourceFormat::detect("ODS", &zip), SourceFormat::Ods);
    assert_eq!(SourceFormat::detect("CSV", b"a,b\n"), SourceFormat::Csv);
    assert_eq!(SourceFormat::detect("txt", b"a,b\n"), SourceFormat::Other);
    assert_eq!(SourceFormat::detect("xlsx", b"PK"), SourceFormat::Other);
    assert_eq!(SourceFormat::detect("", &[]), SourceFormat::Other);
}

#[test]
fn reader_reports_format_and_bytes() {
    let r = xtap_core::Reader::from_bytes(b"a\n".to_vec(), SourceFormat::Csv);
    assert_eq!(r.format(), SourceFormat::Csv);
    assert_eq!(r.bytes(), Some(&b"a\n".to_vec()));
    let s = xtap_core::Reader::from_cells(vec![vec![Field::Int(1)]], SourceFormat::Ods);
    assert_eq!(s.format(), SourceFormat::Ods);
    assert_eq!(s.bytes(), None);
    assert_eq!(s.decode()[0].iter(), vec![Field::Int(1)]);
}

#[test]
fn field_from_plain_values() {
    assert_eq!(Field::from(7i64), Field::Int(7));
    assert_eq!(Field::from(true), Field::Bool(true));
    assert_eq!(Field::from(()), Field::Empty);
    assert_eq!(Field::from(b"ab".to_vec()), Field::Binary(b"ab".to_vec()));
    assert_eq!(Field::from("s".to_string()), Field::String("s".to_string()));
}

#[test]
fn field_compares_with_plain_values_of_its_variant() {
    let bytes: &[u8] = b"ab";
    assert!(Field::Int(7) == 7i64);
    assert!(Field::Bool(7 > 3) != 7i64);
    assert!(Field::Bool(false) == false);
    assert!(Field::Int(0) != false);
    assert!(Field::Empty == ());
    assert!(Field::Binary(Vec::new()) != ());
    assert!(Field::Binary(b"ab".to_vec()) == bytes);
    assert!(Field::String("ab".to_string()) != bytes);
    assert!(Field::String("ab".to_string()) == "ab");
    assert!(Field::String("ab".to_string()) != "abc");
    assert!(Field::Binary(b"ab".to_vec()) != "ab");
}
