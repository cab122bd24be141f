use labelsoft::data::{
    DataProject, DataProjectSchema, DataRecord, FileFormat, HeaderError, ProjectError, RecordError,
};

const GOOD_HEADER: &str = "order_id,customer_id,product_id,quantity,unit_price,order_date,shipping_address,payment_method,order_status,total_price";

fn strings(items: &[&str]) -> Vec<String> {
    items.iter().map(|f| f.to_string()).collect()
}

fn schema_of(items: &[&str]) -> DataProjectSchema {
    DataProjectSchema::new(strings(items)).ok().unwrap()
}

#[test]
fn test_headers_csv() {
    let hd: Vec<String> = GOOD_HEADER.split(",").map(|f| f.to_string()).collect();
    let schema = DataProjectSchema::new(hd.clone());
    assert!(schema.is_ok());
    let sc = schema.unwrap();
    assert_eq!(sc.num_cols(), hd.len());

    // ==== missing/empty headers
    let hd_missing: Vec<String> = String::from(",,,,,")
        .split(",")
        .map(|f| f.to_string())
        .collect();
    let schema_missing_val = DataProjectSchema::new(hd_missing.clone());
    assert!(schema_missing_val.is_err());
    let missing_errors = schema_missing_val.err().unwrap();
    assert_eq!(missing_errors.len(), 6);

    // ==== duplicate column names
    let hd_duplicate: Vec<String> = String::from("dupe1,dupe1,dupe2,dupe3,dupe2,end")
        .split(",")
        .map(|f| f.to_string())
        .collect();
    let schema_duplicate_val = DataProjectSchema::new(hd_duplicate.clone());
    assert!(schema_duplicate_val.is_err());
    let duplicate_errors = schema_duplicate_val.err().unwrap();
    assert_eq!(duplicate_errors.len(), 2);

    // ==== key trimming
    let hd_trim: Vec<String> = String::from("    id,     age   , test")
        .split(",")
        .map(|f| f.to_string())
        .collect();
    let schema_trim = DataProjectSchema::new(hd_trim.clone()).unwrap();
    assert!(schema_trim.get("id").is_some());
    assert!(schema_trim.get("age").is_some());

    // ==== non-typical characters
    let hd_chars: Vec<String> = String::from("id,名字,age, c!ard, #address")
        .split(",")
        .map(|f| f.to_string())
        .collect();
    let schema_chars = DataProjectSchema::new(hd_chars.clone());
    assert!(schema_chars.is_ok());
}

#[test]
fn test_dataproject_good() {
    let data_project: Option<DataProject> =
        DataProject::new_infer_schema("tests/assets/good.csv", "csv", GOOD_HEADER);
    assert!(!data_project.is_none());
    let dp = data_project.unwrap();
    let expected_schema: Vec<(String, usize)> = [
        ("order_id", 0),
        ("customer_id", 1),
        ("product_id", 2),
        ("quantity", 3),
        ("unit_price", 4),
        ("order_date", 5),
        ("shipping_address", 6),
        ("payment_method", 7),
        ("order_status", 8),
        ("total_price", 9),
    ]
    .iter()
    .map(|f| (f.0.to_string(), f.1))
    .collect();

    // The mapping holds the ten expected entries and no other.
    assert_eq!(dp.schema().num_cols(), expected_schema.len());
    for (name, position) in expected_schema.iter() {
        assert_eq!(dp.schema().get(name), Some(*position));
    }
    let names: Vec<String> = expected_schema.iter().map(|f| f.0.clone()).collect();
    assert_eq!(dp.schema().names(), &names);
}

#[test]
fn schema_maps_each_key_to_its_position() {
    let sc = schema_of(&["order_id", "customer_id", "product_id"]);
    assert_eq!(sc.num_cols(), 3);
    assert_eq!(sc.get("order_id"), Some(0));
    assert_eq!(sc.get("customer_id"), Some(1));
    assert_eq!(sc.get("product_id"), Some(2));
    assert_eq!(sc.get("quantity"), None);
    assert_eq!(sc.names(), &strings(&["order_id", "customer_id", "product_id"]));
}

#[test]
fn empty_header_row_gives_empty_schema() {
    let sc = DataProjectSchema::new(Vec::new()).unwrap();
    assert_eq!(sc.num_cols(), 0);
    assert!(sc.names().is_empty());
    assert_eq!(sc.get(""), None);
}

#[test]
fn six_empty_headers_give_six_empty_header_errors() {
    let errors = DataProjectSchema::new(strings(&["", "", "", "", "", ""])).err().unwrap();
    let expected: Vec<HeaderError> =
        (0..6).map(|column| HeaderError::EmptyHeader { column }).collect();
    assert_eq!(errors, expected);
}

#[test]
fn whitespace_only_header_is_empty() {
    let errors = DataProjectSchema::new(strings(&["a", " \t ", "b", "\u{a0}"])).err().unwrap();
    assert_eq!(
        errors,
        vec![HeaderError::EmptyHeader { column: 1 }, HeaderError::EmptyHeader { column: 3 }]
    );
}

#[test]
fn repeated_headers_give_duplicate_header_errors() {
    let errors =
        DataProjectSchema::new(strings(&["dupe1", "dupe1", "dupe2", "dupe3", "dupe2", "end"]))
            .err().unwrap();
    assert_eq!(
        errors,
        vec![
            HeaderError::DuplicateHeader { name: "dupe1".to_string(), column: 1 },
            HeaderError::DuplicateHeader { name: "dupe2".to_string(), column: 4 },
        ]
    );
}

#[test]
fn every_repeat_beyond_the_first_is_an_error() {
    let errors = DataProjectSchema::new(strings(&["a", "a", "a", "b", "a"])).err().unwrap();
    assert_eq!(
        errors,
        vec![
            HeaderError::DuplicateHeader { name: "a".to_string(), column: 1 },
            HeaderError::DuplicateHeader { name: "a".to_string(), column: 2 },
            HeaderError::DuplicateHeader { name: "a".to_string(), column: 4 },
        ]
    );
}

#[test]
fn empty_and_duplicate_errors_come_in_header_order() {
    // k = 2 empty headers and d = 2 repeats give k + d = 4 errors.
    let errors =
        DataProjectSchema::new(strings(&["id", " ", "id ", "age", "", " age"])).err().unwrap();
    assert_eq!(
        errors,
        vec![
            HeaderError::EmptyHeader { column: 1 },
            HeaderError::DuplicateHeader { name: "id".to_string(), column: 2 },
            HeaderError::EmptyHeader { column: 4 },
            HeaderError::DuplicateHeader { name: "age".to_string(), column: 5 },
        ]
    );
}

#[test]
fn headers_are_trimmed_to_keys() {
    let sc = schema_of(&["  id "]);
    assert_eq!(sc.get("id"), Some(0));
    assert_eq!(sc.get("  id "), None);
    assert_eq!(sc.names(), &strings(&["id"]));
}

#[test]
fn headers_that_differ_in_outer_whitespace_are_duplicates() {
    let errors = DataProjectSchema::new(strings(&["id", "id "])).err().unwrap();
    assert_eq!(errors, vec![HeaderError::DuplicateHeader { name: "id".to_string(), column: 1 }]);
}

#[test]
fn inner_whitespace_and_case_are_kept() {
    let sc = schema_of(&[" unit price ", "Unit Price", "unit  price"]);
    assert_eq!(sc.num_cols(), 3);
    assert_eq!(sc.get("unit price"), Some(0));
    assert_eq!(sc.get("Unit Price"), Some(1));
    assert_eq!(sc.get("unit  price"), Some(2));
    assert_eq!(sc.get("unitprice"), None);
}

#[test]
fn unusual_characters_are_kept_verbatim() {
    let sc = schema_of(&["id", "名字", "age", " c!ard", " #address"]);
    assert_eq!(sc.num_cols(), 5);
    assert_eq!(sc.get("名字"), Some(1));
    assert_eq!(sc.get("c!ard"), Some(3));
    assert_eq!(sc.get("#address"), Some(4));
}

#[test]
fn building_twice_gives_the_same_mapping() {
    let headers = ["order_id", " customer_id", "product_id "];
    let first = schema_of(&headers);
    let second = schema_of(&headers);
    assert_eq!(first.num_cols(), second.num_cols());
    assert_eq!(first.names(), second.names());
    for name in first.names() {
        assert_eq!(first.get(name), second.get(name));
    }
}

#[test]
fn cloned_schema_has_the_same_columns() {
    let sc = schema_of(&["id", " name ", "age"]);
    let copy = sc.clone();
    assert_eq!(copy.num_cols(), 3);
    assert_eq!(copy.names(), sc.names());
    assert_eq!(copy.get("id"), Some(0));
    assert_eq!(copy.get("name"), Some(1));
    assert_eq!(copy.get("age"), Some(2));
    assert_eq!(copy.get(" name "), None);
}

#[test]
fn row_of_matching_arity_becomes_a_record() {
    let sc = schema_of(&["a", "b", "c"]);
    let fields = strings(&[" 1 ", "", "x,y"]);
    let record = DataRecord::from_fields(fields.clone(), &sc).unwrap();
    assert_eq!(record.elements(), &fields);
}

#[test]
fn short_row_is_an_arity_mismatch() {
    let sc = schema_of(&["a", "b", "c"]);
    let res = DataRecord::from_fields(strings(&["a", "b"]), &sc);
    assert_eq!(res.unwrap_err(), RecordError::ArityMismatch { expected: 3, found: 2 });
}

#[test]
fn long_row_is_an_arity_mismatch() {
    let sc = schema_of(&["a", "b", "c"]);
    let res = DataRecord::from_fields(strings(&["a", "b", "c", "d"]), &sc);
    assert_eq!(res.unwrap_err(), RecordError::ArityMismatch { expected: 3, found: 4 });
}

#[test]
fn check_against_schema_compares_counts_only() {
    let sc = schema_of(&["a", "b"]);
    assert_eq!(DataRecord::check_against_schema(&strings(&["", ""]), &sc), None);
    assert_eq!(
        DataRecord::check_against_schema(&strings(&[]), &sc),
        Some(RecordError::ArityMismatch { expected: 2, found: 0 })
    );
}

#[test]
fn record_is_split_at_commas_and_not_trimmed() {
    let sc = schema_of(&["a", "b", "c"]);
    let record = DataRecord::new(&" 1 ,,名字 ".to_string(), &sc).unwrap();
    assert_eq!(record.elements(), &strings(&[" 1 ", "", "名字 "]));
}

#[test]
fn record_of_wrong_field_count_is_rejected() {
    let sc = schema_of(&["a", "b", "c"]);
    assert_eq!(
        DataRecord::new(&"a,b".to_string(), &sc).unwrap_err(),
        RecordError::ArityMismatch { expected: 3, found: 2 }
    );
    assert_eq!(
        DataRecord::new(&"".to_string(), &sc).unwrap_err(),
        RecordError::ArityMismatch { expected: 3, found: 1 }
    );
    assert_eq!(
        DataRecord::new(&"a,b,c,".to_string(), &sc).unwrap_err(),
        RecordError::ArityMismatch { expected: 3, found: 4 }
    );
}

#[test]
fn format_is_chosen_by_tag() {
    assert_eq!(FileFormat::from_extension("csv"), Some(FileFormat::Csv));
    assert_eq!(FileFormat::from_extension(".csv"), Some(FileFormat::Csv));
    assert_eq!(FileFormat::from_extension("CSV"), None);
    assert_eq!(FileFormat::from_extension("cs"), None);
    assert_eq!(FileFormat::from_extension("csvx"), None);
    assert_eq!(FileFormat::from_extension(""), None);
    assert_eq!(FileFormat::from_extension("json"), None);
}

#[test]
fn csv_lines_are_cut_at_commas() {
    assert_eq!(FileFormat::Csv.split_line("a,b ,c"), strings(&["a", "b ", "c"]));
    assert_eq!(FileFormat::Csv.split_line(""), strings(&[""]));
    assert_eq!(FileFormat::Csv.split_line(",,,,,"), strings(&["", "", "", "", "", ""]));
}

#[test]
fn csv_data_rows_leave_out_the_header_line() {
    assert_eq!(
        DataProject::read_data_csv(strings(&["h1,h2", "1,2", "3,4"])),
        strings(&["1,2", "3,4"])
    );
    assert_eq!(DataProject::read_data_csv(strings(&["h1,h2"])), strings(&[]));
    assert_eq!(DataProject::read_data_csv(Vec::new()), strings(&[]));
}

#[test]
fn schema_by_file_type_reads_csv_headers() {
    let sc = DataProject::get_schema_by_file_type("id, name ,age", ".csv").unwrap();
    assert_eq!(sc.names(), &strings(&["id", "name", "age"]));
}

#[test]
fn schema_by_file_type_rejects_unknown_extension() {
    let res = DataProject::get_schema_by_file_type("id,name", "xlsx");
    assert_eq!(
        res.err().unwrap(),
        ProjectError::UnsupportedFormat { extension: "xlsx".to_string() }
    );
}

#[test]
fn schema_by_file_type_reports_every_bad_header() {
    let res = DataProject::get_schema_by_file_type("id,,id", "csv");
    assert_eq!(
        res.err().unwrap(),
        ProjectError::InvalidHeaders {
            errors: vec![
                HeaderError::EmptyHeader { column: 1 },
                HeaderError::DuplicateHeader { name: "id".to_string(), column: 2 },
            ]
        }
    );
}

#[test]
fn new_project_keeps_path_and_extension() {
    let dp = DataProject::new_infer_schema("some/dir/good.csv", "csv", "a,b").unwrap();
    assert_eq!(dp.file_path(), "some/dir/good.csv");
    assert_eq!(dp.extension(), "csv");
    assert!(!dp.loaded());
    assert!(dp.records().is_empty());
    assert_eq!(dp.schema().num_cols(), 2);
}

#[test]
fn no_project_without_format_or_valid_headers() {
    assert!(DataProject::new_infer_schema("good.txt", "txt", "a,b").is_none());
    assert!(DataProject::new_infer_schema("good.csv", "csv", "a,a").is_none());
    assert!(DataProject::new_infer_schema("good.csv", "csv", "").is_none());
}

#[test]
fn data_by_file_type_selects_rows_or_rejects() {
    assert_eq!(
        DataProject::read_data_by_file_type(strings(&["a,b", "1,2"]), "csv").unwrap(),
        strings(&["1,2"])
    );
    assert_eq!(
        DataProject::read_data_by_file_type(strings(&["a,b", "1,2"]), "tsv").err().unwrap(),
        ProjectError::UnsupportedFormat { extension: "tsv".to_string() }
    );
}

#[test]
fn load_validates_every_data_row() {
    let mut dp = DataProject::new_infer_schema("good.csv", "csv", "a,b").unwrap();
    let records = dp.load(strings(&["a,b", "1,2", " 3 ,", "x,y"])).unwrap();
    assert_eq!(records.len(), 3);
    assert_eq!(records[0].elements(), &strings(&["1", "2"]));
    assert_eq!(records[1].elements(), &strings(&[" 3 ", ""]));
    assert_eq!(records[2].elements(), &strings(&["x", "y"]));
    // The project is left as it was, so it can be loaded again.
    assert!(!dp.loaded());
    assert!(dp.records().is_empty());
    assert!(dp.load(strings(&["a,b"])).unwrap().is_empty());
}

#[test]
fn load_stops_at_the_first_row_that_does_not_fit() {
    let mut dp = DataProject::new_infer_schema("good.csv", "csv", "a,b").unwrap();
    let res = dp.load(strings(&["a,b", "1,2", "3", "4,5,6"]));
    assert_eq!(
        res.err().unwrap(),
        ProjectError::InvalidRecord {
            row: 1,
            error: RecordError::ArityMismatch { expected: 2, found: 1 },
        }
    );
}
