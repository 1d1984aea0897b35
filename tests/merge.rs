use xtap_core::reader::Format as SourceFormat;
use xtap_core::{Field, Format, MergeError, Merger, MergerBuilder, Newline, Reader, Record};

fn csv(text: &str) -> Reader {
    Reader::from_bytes(text.as_bytes().to_vec(), SourceFormat::Csv)
}

fn text(out: Vec<u8>) -> String {
    String::from_utf8(out).unwrap()
}

fn lens(rows: &[Record]) -> Vec<usize> {
    rows.iter().map(|r| r.len()).collect()
}

#[test]
fn head_and_tail_with_preserved_ends_keep_seven_lines() {
    let a = csv("h1,h2\na1,x\na2,x\na3,x\na4,x\n");
    let b = csv("h1,h2\n");
    let c = csv("h1,h2\nc1,x\nc2,x\nc3,x\nc4,x\n");
    let mut builder = MergerBuilder::new();
    builder.skip_head(1, true).skip_tail(1, true);
    let merger = builder.from_readers(vec![a, b, c]);
    let out = text(merger.into_bytes(Format::Csv).unwrap());
    assert_eq!(out, "h1,h2\na1,x\na2,x\na3,x\nc2,x\nc3,x\nc4,x\n");
    assert_eq!(out.lines().count(), 7);
}

#[test]
fn non_max_length_keeps_only_longest_row() {
    let src = csv("a,b,c\na,b,c,d,e\na,b,c,d\n");
    let mut builder = MergerBuilder::new();
    builder.has_headers(false).skip_non_max_length(true);
    let merged = builder.from_readers(vec![src]).merge();
    assert_eq!(merged.row_count(), 1);
    assert_eq!(lens(&merged.rows), vec![5]);
}

#[test]
fn non_max_length_looks_across_sources() {
    let mut builder = MergerBuilder::new();
    builder.has_headers(false).skip_non_max_length(true);
    let merger = builder.from_readers(vec![csv("a,b,c\n"), csv("a,b,c,d,e\n"), csv("a,b,c,d\n")]);
    let merged = merger.merge();
    assert_eq!(lens(&merged.rows), vec![5]);
}

#[test]
fn fields_empty_ignores_index_past_row_end() {
    let mut builder = MergerBuilder::new();
    builder.has_headers(false).skip_fields_empty(vec![2]);
    let merged = builder.from_readers(vec![csv("a,b\nx,y,\n")]).merge();
    assert_eq!(merged.row_count(), 1);
    assert_eq!(merged.rows[0].get(0), Some(Field::Binary(b"a".to_vec())));
}

#[test]
fn fields_empty_drops_row_with_empty_field() {
    let mut builder = MergerBuilder::new();
    builder.has_headers(false).skip_fields_empty(vec![1]);
    let merged = builder.from_readers(vec![csv("a,,c\nd,e,f\n")]).merge();
    assert_eq!(merged.row_count(), 1);
    assert_eq!(merged.rows[0].get(0), Some(Field::Binary(b"d".to_vec())));
}

#[test]
fn length_less_than_drops_short_rows() {
    let mut builder = MergerBuilder::new();
    builder.has_headers(false).skip_length_less_than(3);
    let merged = builder.from_readers(vec![csv("a,b\na,b,c\na,b,c,d\n")]).merge();
    assert_eq!(lens(&merged.rows), vec![3, 4]);
}

#[test]
fn no_rules_concatenate_sources_and_keep_first_header() {
    let merger = Merger::from_readers(vec![csv("h\n1\n2\n"), csv("h\n3\n"), csv("h\n4\n")]);
    let out = text(merger.into_bytes(Format::Csv).unwrap());
    assert_eq!(out, "h\n1\n2\n3\n4\n");
}

#[test]
fn no_rules_without_headers_keeps_every_row() {
    let mut builder = MergerBuilder::new();
    builder.has_headers(false);
    let merged = builder.from_readers(vec![csv("h\n1\n"), csv("h\n2\n")]).merge();
    assert!(merged.headers.is_none());
    assert_eq!(merged.row_count(), 4);
}

#[test]
fn column_removal_keeps_same_rows() {
    let data = "h1,h2,h3\n1,,3\n4,5,6\n7,8\n";
    let mut plain = MergerBuilder::new();
    plain.skip_fields_empty(vec![1]);
    let without = plain.from_readers(vec![csv(data)]).merge();
    let mut cols = MergerBuilder::new();
    cols.skip_fields_empty(vec![1]).drop_columns(vec![0, 2]);
    let with = cols.from_readers(vec![csv(data)]).merge();
    assert_eq!(without.row_count(), with.row_count());
    assert_eq!(lens(&without.rows), vec![3, 2]);
    assert_eq!(lens(&with.rows), vec![1, 1]);
    let out = text(cols.from_readers(vec![csv(data)]).into_bytes(Format::Csv).unwrap());
    assert_eq!(out, "h2\n5\n8\n");
}

#[test]
fn single_source_round_trip_is_byte_identical() {
    let data = "name,qty\r\napple,3\r\n\"a,b\",\"say \"\"hi\"\"\"\r\n";
    let mut builder = MergerBuilder::new();
    builder.newline(Newline::Crlf);
    let out = builder.from_readers(vec![csv(data)]).into_bytes(Format::Csv).unwrap();
    assert_eq!(text(out), data);
}

#[test]
fn row_count_is_sum_of_sources() {
    let mut builder = MergerBuilder::new();
    builder.skip_head(1, false).skip_length_less_than(2);
    let sources = vec!["h,h\n1,1\n2,2\n3\n", "h,h\n4,4\n5,5\n", "h,h\n"];
    let merged = builder.from_readers(sources.iter().map(|s| csv(s)).collect()).merge();
    // Each source alone: rows after the header, minus the first, of length >= 2.
    let mut total = 0;
    for s in &sources {
        let alone = builder.from_readers(vec![csv(s)]).merge();
        total += alone.row_count();
    }
    assert_eq!(merged.row_count(), total);
    assert_eq!(total, 2);
}

#[test]
fn head_larger_than_source_gives_no_rows() {
    let mut builder = MergerBuilder::new();
    builder.skip_head(10, false).skip_tail(10, false);
    let merged = builder.from_readers(vec![csv("h\n1\n2\n")]).merge();
    assert_eq!(merged.row_count(), 0);
    assert!(merged.headers.is_some());
}

#[test]
fn trim_all_trims_header_and_fields() {
    let mut builder = MergerBuilder::new();
    builder.trim(xtap_core::Trim::All);
    let out = builder.from_readers(vec![csv(" h1 ,\th2\n a , b \n")]).into_bytes(Format::Csv).unwrap();
    assert_eq!(text(out), "h1,h2\na,b\n");
}

#[test]
fn trim_headers_leaves_fields() {
    let mut builder = MergerBuilder::new();
    builder.trim(xtap_core::Trim::Headers);
    let out = builder.from_readers(vec![csv(" h \n a \n")]).into_bytes(Format::Csv).unwrap();
    assert_eq!(text(out), "h\n a \n");
}

#[test]
fn sheet_cells_are_written_as_text() {
    let rows = vec![
        vec![Field::String("name".to_string()), Field::String("n".to_string())],
        vec![Field::String("x, y".to_string()), Field::Int(-42)],
        vec![Field::Bool(true), Field::Float("1.5".to_string())],
        vec![Field::Empty, Field::Error("#DIV/0!".to_string())],
    ];
    let merger = Merger::from_readers(vec![Reader::from_cells(rows, SourceFormat::Xlsx)]);
    let out = text(merger.into_bytes(Format::Csv).unwrap());
    assert_eq!(out, "name,n\n\"x, y\",-42\ntrue,1.5\n,#DIV/0!\n");
}

#[test]
fn empty_field_rule_treats_empty_cell_as_empty() {
    let rows = vec![vec![Field::Empty, Field::Int(1)], vec![Field::Int(2), Field::Int(3)]];
    let mut builder = MergerBuilder::new();
    builder.has_headers(false).skip_fields_empty(vec![0]);
    let merged = builder.from_readers(vec![Reader::from_cells(rows, SourceFormat::Ods)]).merge();
    assert_eq!(merged.row_count(), 1);
    assert_eq!(merged.rows[0].get(1), Some(Field::Int(3)));
}

#[test]
fn raw_bytes_force_ending_newline() {
    let mut builder = MergerBuilder::new();
    builder.force_ending_newline(true).newline(Newline::Crlf);
    let out = builder
        .from_readers(vec![csv("a\nb"), csv(""), csv("c\n")])
        .into_bytes(Format::Bytes)
        .unwrap();
    assert_eq!(text(out), "a\nb\r\nc\n");
}

#[test]
fn raw_bytes_without_force_concatenate() {
    let out = Merger::from_readers(vec![csv("a"), csv("b")]).into_bytes(Format::Bytes).unwrap();
    assert_eq!(text(out), "ab");
}

#[test]
fn raw_output_of_sheet_is_config_error() {
    let sheet = Reader::from_cells(vec![vec![Field::Int(1)]], SourceFormat::Xlsx);
    let r = Merger::from_readers(vec![csv("a\n"), sheet]).into_bytes(Format::Bytes);
    assert_eq!(r, Err(MergeError::Config));
}

#[test]
fn xlsx_output_is_config_error() {
    let r = Merger::from_readers(vec![csv("a\n")]).into_bytes(Format::Xlsx);
    assert_eq!(r, Err(MergeError::Config));
}

#[test]
fn csv_decode_splits_fields() {
    let merged = Merger::from_readers(vec![csv("h\n\"q,1\",2\n")]).merge();
    let fields = merged.rows[0].iter();
    assert_eq!(fields, vec![Field::Binary(b"q,1".to_vec()), Field::Binary(b"2".to_vec())]);
}

#[test]
fn merge_of_no_sources_is_empty() {
    let merged = Merger::from_readers(Vec::new()).merge();
    assert!(merged.headers.is_none());
    assert_eq!(merged.row_count(), 0);
}

#[test]
fn header_comes_from_first_non_empty_source() {
    let merged = Merger::from_readers(vec![csv(""), csv("h\n1\n")]).merge();
    assert_eq!(merged.headers.as_ref().unwrap().get(0), Some(Field::Binary(b"h".to_vec())));
    assert_eq!(merged.row_count(), 1);
}

#[test]
fn builder_defaults_and_capacity() {
    let mut builder = MergerBuilder::new();
    assert_eq!(builder.capacity(), 8192);
    builder.buffer_capacity(16).has_headers(true);
    assert_eq!(builder.capacity(), 16);
}

#[test]
fn extreme_integers_are_written_in_full() {
    let rows = vec![vec![Field::Int(i64::MIN), Field::Int(i64::MAX), Field::Int(0)]];
    let mut builder = MergerBuilder::new();
    builder.has_headers(false);
    let out = builder.from_readers(vec![Reader::from_cells(rows, SourceFormat::Xlsx)]).into_bytes(Format::Csv).unwrap();
    assert_eq!(text(out), "-9223372036854775808,9223372036854775807,0\n");
}

#[test]
fn row_of_one_empty_field_round_trips() {
    let data = "h\n\"\"\nx\n";
    let out = Merger::from_readers(vec![csv(data)]).into_bytes(Format::Csv).unwrap();
    assert_eq!(text(out), data);
}

#[test]
fn empty_first_field_of_wider_row_is_not_quoted() {
    let out = Merger::from_readers(vec![csv("a,b\n,x\n")]).into_bytes(Format::Csv).unwrap();
    assert_eq!(text(out), "a,b\n,x\n");
}

#[test]
fn trim_all_trims_sheet_strings() {
    let rows = vec![vec![Field::String(" h ".to_string())], vec![Field::String("\tv \r".to_string()), Field::Int(1)]];
    let mut builder = MergerBuilder::new();
    builder.trim(xtap_core::Trim::All);
    let out = builder.from_readers(vec![Reader::from_cells(rows, SourceFormat::Xlsx)]).into_bytes(Format::Csv).unwrap();
    assert_eq!(text(out), "h\nv,1\n");
}

#[test]
fn trim_fields_keeps_sheet_header() {
    let rows = vec![vec![Field::String(" h ".to_string())], vec![Field::String(" v ".to_string())]];
    let mut builder = MergerBuilder::new();
    builder.trim(xtap_core::Trim::Fields);
    let merged = builder.from_readers(vec![Reader::from_cells(rows, SourceFormat::Ods)]).merge();
    assert_eq!(merged.headers.as_ref().unwrap().get(0), Some(Field::String(" h ".to_string())));
    assert_eq!(merged.rows[0].get(0), Some(Field::String("v".to_string())));
}

#[test]
fn head_and_tail_covering_a_source_leave_it_empty_without_error() {
    let mut builder = MergerBuilder::new();
    builder.skip_head(1, false).skip_tail(1, false);
    let out = builder.from_readers(vec![csv("h\n1\n"), csv("h\n2\n3\n4\n")]).into_bytes(Format::Csv).unwrap();
    assert_eq!(text(out), "h\n3\n");
}

#[test]
fn headers_of_different_widths_keep_the_first() {
    let out = Merger::from_readers(vec![csv("a,b\n1,2\n"), csv("a,b,c\n3,4,5\n")]).into_bytes(Format::Csv).unwrap();
    assert_eq!(text(out), "a,b\n1,2\n3,4,5\n");
}

#[test]
fn sources_without_final_newline_are_not_fused() {
    let mut builder = MergerBuilder::new();
    builder.has_headers(false).newline(Newline::Crlf);
    let out = builder.from_readers(vec![csv("a\nb"), csv("c")]).into_bytes(Format::Csv).unwrap();
    assert_eq!(text(out), "a\r\nb\r\nc\r\n");
}
