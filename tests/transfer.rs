use daimojo::{
    batch_size_magic, check_api_version, Cell, FrameExporter, FrameImporter, MojoError, MOJO_DataType,
    MOJO_INT32_NAN, PipelineSchema, RawFrame, RecordSource,
};

fn strings(items: &[&str]) -> Vec<String> {
    items.iter().map(|s| s.to_string()).collect()
}

fn records(rows: &[&[&str]]) -> Vec<Vec<String>> {
    rows.iter().map(|r| strings(r)).collect()
}

/// Inputs `a:Int32, b:Float64`, output `v:Int32`.
fn schema_ab_v() -> PipelineSchema {
    PipelineSchema::new(
        strings(&["a", "b"]),
        vec![MOJO_DataType::MOJO_INT32, MOJO_DataType::MOJO_DOUBLE],
        strings(&["v"]),
        vec![MOJO_DataType::MOJO_INT32],
        vec![],
    )
}

fn int_at(frame: &RawFrame, col: usize, row: usize) -> i32 {
    match frame.input_col(col).unwrap().value_at(row) {
        Cell::Int32(v) => v,
        other => panic!("{:?}", other),
    }
}

/// Stands in for the engine's transform: output `v` is input `a`.
fn identity_transform(frame: &mut RawFrame, rows: usize) {
    for r in 0..rows {
        let value = frame.input_col(0).unwrap().value_at(r);
        frame.store_output(0, r, value);
    }
}

fn parse_csv(text: &str) -> (Vec<String>, Vec<Vec<String>>) {
    let mut rdr = csv::Reader::from_reader(text.as_bytes());
    let headers = rdr.headers().unwrap().iter().map(|s| s.to_string()).collect();
    let recs = rdr
        .records()
        .map(|r| r.unwrap().iter().map(|s| s.to_string()).collect())
        .collect();
    (headers, recs)
}

#[test]
fn end_to_end_identity_scenario() {
    let schema = schema_ab_v();
    let mut frame = RawFrame::new(&schema, 2).unwrap();
    let (headers, recs) = parse_csv("a,b\n5,1.5\n,2.5\n7,3.5\n");
    let mut source = RecordSource::new(recs);
    let mut importer = FrameImporter::init(&schema, &frame, &headers, false, true).unwrap();
    let (mut exporter, mut out) = FrameExporter::init(&schema, &frame).unwrap();

    assert_eq!(Some(2), importer.import_frame(&mut frame, &mut source));
    assert_eq!(5, int_at(&frame, 0, 0));
    assert_eq!(MOJO_INT32_NAN, int_at(&frame, 0, 1));
    identity_transform(&mut frame, 2);
    out.extend(exporter.export_frame(&mut frame, 2).unwrap());

    assert_eq!(Some(1), importer.import_frame(&mut frame, &mut source));
    assert!(importer.is_exhausted());
    assert_eq!(7, int_at(&frame, 0, 0));
    identity_transform(&mut frame, 1);
    out.extend(exporter.export_frame(&mut frame, 1).unwrap());

    assert_eq!(None, importer.import_frame(&mut frame, &mut source));
    assert_eq!("v\n5\n2147483647\n7\n", String::from_utf8(out).unwrap());
    assert_eq!(3, exporter.total_rows_processed());
    assert_eq!(2, exporter.total_batches_processed());
}

#[test]
fn exactly_capacity_rows() {
    let schema = schema_ab_v();
    let mut frame = RawFrame::new(&schema, 3).unwrap();
    let headers = strings(&["a", "b"]);
    let mut source = RecordSource::new(records(&[&["1", "0"], &["2", "0"], &["3", "0"]]));
    let mut importer = FrameImporter::init(&schema, &frame, &headers, false, true).unwrap();
    assert_eq!(Some(3), importer.import_frame(&mut frame, &mut source));
    assert!(!importer.is_exhausted());
    assert_eq!(None, importer.import_frame(&mut frame, &mut source));
    assert!(importer.is_exhausted());
    assert_eq!(None, importer.import_frame(&mut frame, &mut source));
}

#[test]
fn capacity_plus_one_rows() {
    let schema = schema_ab_v();
    let mut frame = RawFrame::new(&schema, 2).unwrap();
    let headers = strings(&["a", "b"]);
    let mut source = RecordSource::new(records(&[&["1", "0"], &["2", "0"], &["3", "0"]]));
    let mut importer = FrameImporter::init(&schema, &frame, &headers, false, true).unwrap();
    assert_eq!(Some(2), importer.import_frame(&mut frame, &mut source));
    assert!(!importer.is_exhausted());
    assert_eq!(Some(1), importer.import_frame(&mut frame, &mut source));
    assert!(importer.is_exhausted());
    assert_eq!(3, int_at(&frame, 0, 0));
    assert_eq!(2, int_at(&frame, 0, 1));
}

#[test]
fn exhausted_at_start_reads_nothing() {
    let schema = schema_ab_v();
    let mut frame = RawFrame::new(&schema, 2).unwrap();
    let headers = strings(&["a", "b"]);
    let mut source = RecordSource::new(records(&[&["1", "0"]]));
    let mut importer = FrameImporter::init(&schema, &frame, &headers, true, true).unwrap();
    assert_eq!(None, importer.import_frame(&mut frame, &mut source));
    assert_eq!(1, source.remaining_count());
}

#[test]
fn missing_column_strict_is_error() {
    let schema = schema_ab_v();
    let frame = RawFrame::new(&schema, 2).unwrap();
    let headers = strings(&["b", "c"]);
    match FrameImporter::init(&schema, &frame, &headers, false, true) {
        Err(MojoError::MissingInputColumn(0)) => {}
        other => panic!("{:?}", other.map(|_| ())),
    }
}

#[test]
fn missing_column_lenient_is_skipped() {
    let schema = schema_ab_v();
    let mut frame = RawFrame::new(&schema, 2).unwrap();
    let headers = strings(&["b"]);
    let mut source = RecordSource::new(records(&[&["1.5"], &["2.5"]]));
    let mut importer = FrameImporter::init(&schema, &frame, &headers, false, false).unwrap();
    assert_eq!(Some(2), importer.import_frame(&mut frame, &mut source));
    assert_eq!(0, int_at(&frame, 0, 0));
    match frame.input_col(1).unwrap().value_at(1) {
        Cell::Float64Text(s) => assert_eq!("2.5", s),
        other => panic!("{:?}", other),
    }
}

#[test]
fn header_binding_by_exact_name_last_wins() {
    let schema = schema_ab_v();
    let mut frame = RawFrame::new(&schema, 1).unwrap();
    let headers = strings(&["a", "x", "A", "b", "a"]);
    let mut source = RecordSource::new(records(&[&["1", "0", "2", "0", "3"]]));
    let mut importer = FrameImporter::init(&schema, &frame, &headers, false, true).unwrap();
    assert_eq!(5, importer.header_width());
    assert_eq!(Some(1), importer.import_frame(&mut frame, &mut source));
    assert_eq!(3, int_at(&frame, 0, 0));
}

#[test]
fn unsupported_type_is_error() {
    let schema = PipelineSchema::new(
        strings(&["a"]),
        vec![MOJO_DataType::MOJO_UNKNOWN],
        strings(&["v"]),
        vec![MOJO_DataType::MOJO_INT32],
        vec![],
    );
    assert!(matches!(RawFrame::new(&schema, 1), Err(MojoError::UnsupportedInputType(0))));
    let schema = PipelineSchema::new(
        strings(&["a"]),
        vec![MOJO_DataType::MOJO_INT32],
        strings(&["v", "w"]),
        vec![MOJO_DataType::MOJO_INT32, MOJO_DataType::MOJO_UNKNOWN],
        vec![],
    );
    assert!(matches!(RawFrame::new(&schema, 1), Err(MojoError::UnsupportedOutputType(1))));
}

#[test]
fn frame_index_errors() {
    let schema = schema_ab_v();
    let frame = RawFrame::new(&schema, 1).unwrap();
    assert_eq!(3, frame.ncol());
    assert!(matches!(frame.input_col(2), Err(MojoError::InvalidInputIndex(2))));
    assert!(matches!(frame.output_col(1), Err(MojoError::InvalidOutputIndex(1))));
}

#[test]
fn export_quotes_and_encodes() {
    let schema = PipelineSchema::new(
        vec![],
        vec![],
        strings(&["name", "flag", "n"]),
        vec![MOJO_DataType::MOJO_STRING, MOJO_DataType::MOJO_BOOL, MOJO_DataType::MOJO_INT64],
        vec![],
    );
    let mut frame = RawFrame::new(&schema, 2).unwrap();
    frame.store_output(0, 0, Cell::Str("x,y".to_string()));
    frame.store_output(1, 0, Cell::Bool(true));
    frame.store_output(2, 0, Cell::Int64(-5));
    let (mut exporter, header) = FrameExporter::init(&schema, &frame).unwrap();
    assert_eq!("name,flag,n\n", String::from_utf8(header).unwrap());
    let rows = exporter.export_rows(&mut frame, 2);
    assert_eq!(vec![strings(&["x,y", "true", "-5"]), strings(&["", "false", "0"])], rows);
    let bytes = exporter.export_frame(&mut frame, 1).unwrap();
    assert_eq!("\"x,y\",true,-5\n", String::from_utf8(bytes).unwrap());
    assert_eq!(1, exporter.total_rows_processed());
}

#[test]
fn schema_iterators() {
    let schema = PipelineSchema::new(
        strings(&["a", "b"]),
        vec![MOJO_DataType::MOJO_INT32, MOJO_DataType::MOJO_DOUBLE],
        strings(&["v"]),
        vec![MOJO_DataType::MOJO_INT32],
        strings(&["NA", ""]),
    );
    let mut features = schema.features();
    assert_eq!(Some((&"a".to_string(), &MOJO_DataType::MOJO_INT32)), features.next());
    assert_eq!(Some((&"b".to_string(), &MOJO_DataType::MOJO_DOUBLE)), features.next());
    assert_eq!(None, features.next());
    let mut missing = schema.missing_values();
    assert_eq!(Some(&"NA".to_string()), missing.next());
    assert_eq!(Some(&"".to_string()), missing.next());
    assert_eq!(None, missing.next());
    assert_eq!(strings(&["v"]), FrameExporter::header(&schema));
}

#[test]
fn batch_size_policy() {
    assert_eq!(10000, batch_size_magic(None, 0));
    assert_eq!(1000, batch_size_magic(Some(0), 0));
    assert_eq!(1000, batch_size_magic(Some(49999), 0));
    assert_eq!(2000, batch_size_magic(Some(100000), 0));
    assert_eq!(7, batch_size_magic(Some(100000), 7));
    assert_eq!(123456, batch_size_magic(None, 123456));
}

#[test]
fn api_version_check() {
    assert!(check_api_version("lib.so", "2.8.1").is_ok());
    assert!(check_api_version("lib.so", "2.").is_ok());
    match check_api_version("lib.so", "1.9") {
        Err(MojoError::UnsupportedApi(f, v)) => {
            assert_eq!("lib.so", f);
            assert_eq!("1.9", v);
        }
        other => panic!("{:?}", other),
    }
    assert!(check_api_version("lib.so", "2").is_err());
    assert!(check_api_version("lib.so", "").is_err());
}
