use gencsv::dataframe::generate_table;
use gencsv::error::DataError;
use gencsv::registry::{tag_of, TypeTag};
use gencsv::schema::{default_schema, parse_schema, Schema};

#[test]
fn schema_test_happy_path_schema_parser() {
    let input = "col1:STRING, col2:INT, col3:DATE, col4:INT_RNG:(1-  100) ";
    let subject = parse_schema(input);

    assert_eq!(4, subject.len());
    assert_eq!("col1", subject.get(0).unwrap().name);
    assert_eq!("STRING", subject.get(0).unwrap().datatype);
    assert_eq!("col2", subject.get(1).unwrap().name);
    assert_eq!("INT", subject.get(1).unwrap().datatype);
    assert_eq!("col3", subject.get(2).unwrap().name);
    assert_eq!("DATE", subject.get(2).unwrap().datatype);
    assert_eq!("col4", subject.get(3).unwrap().name);
    assert_eq!("INT_RNG", subject.get(3).unwrap().datatype);
    let modifier = subject.get(3).unwrap().modifier.as_ref().unwrap();
    assert_eq!("(1-100)", modifier);
}

#[test]
fn schema_test_empty_schema_has_no_results() {
    let input = "";
    let subject = parse_schema(input);
    assert_eq!(0, subject.len());
}

#[test]
fn schema_test_bad_schema_has_no_results() {
    let input = "naughtyschema,,23234kj23lk4j232lkjc 2lkj3 ";
    let subject = parse_schema(input);
    assert_eq!(0, subject.len());
}

#[test]
fn csv_test_happy_path_schema_parser() {
    let input = "col1:STRING, col2:INT, col3:DATE, ";
    let subject = parse_schema(input);

    assert_eq!(3, subject.len());
    assert_eq!("col1", subject.get(0).unwrap().name);
    assert_eq!("STRING", subject.get(0).unwrap().datatype);
    assert_eq!("col2", subject.get(1).unwrap().name);
    assert_eq!("INT", subject.get(1).unwrap().datatype);
    assert_eq!("col3", subject.get(2).unwrap().name);
    assert_eq!("DATE", subject.get(2).unwrap().datatype);
}

#[test]
fn csv_test_empty_schema_has_no_results() {
    let input = "";
    let subject = parse_schema(input);
    assert_eq!(0, subject.len());
}

#[test]
fn csv_test_bad_schema_has_no_results() {
    let input = "naughtyschema,,23234kj23lk4j232lkjc 2lkj3 ";
    let subject = parse_schema(input);
    assert_eq!(0, subject.len());
}

#[test]
fn schema_drops_only_malformed_segments() {
    let subject = parse_schema("a:INT,b,c:X:Y:Z,d:TEXT:m,");
    assert_eq!(2, subject.len());
    assert_eq!("a", subject[0].name);
    assert_eq!(None, subject[0].modifier);
    assert_eq!("d", subject[1].name);
    assert_eq!("TEXT", subject[1].datatype);
    assert_eq!(Some("m".to_string()), subject[1].modifier);
}

#[test]
fn schema_strips_all_whitespace() {
    let subject = parse_schema("\tna me :\u{a0}INT\n");
    assert_eq!(1, subject.len());
    assert_eq!("name", subject[0].name);
    assert_eq!("INT", subject[0].datatype);
}

#[test]
fn schema_one_trailing_comma_ignored() {
    let subject = parse_schema("a:INT,,");
    assert_eq!(1, subject.len());
    let subject = parse_schema(",");
    assert_eq!(0, subject.len());
}

#[test]
fn schema_from_string_shapes() {
    assert!(Schema::from_string("x").is_none());
    assert!(Schema::from_string("a:b:c:d").is_none());
    let s = Schema::from_string(" a : b ").unwrap();
    assert_eq!("a", s.name);
    assert_eq!("b", s.datatype);
    let s = Schema::from_string(":INT").unwrap();
    assert_eq!("", s.name);
}

#[test]
fn default_schema_has_four_value_columns() {
    let s = default_schema();
    assert_eq!(4, s.len());
    for (i, c) in s.iter().enumerate() {
        assert_eq!(format!("col{}", i + 1), c.name);
        assert_eq!("VALUE", c.datatype);
        assert!(c.modifier.is_none());
    }
}

#[test]
fn tags_match_exactly() {
    assert_eq!(TypeTag::IntRng, tag_of("INT_RNG"));
    assert_eq!(TypeTag::LoremParagraph, tag_of("LOREM_PARAGRAPH"));
    assert_eq!(TypeTag::Value, tag_of("VALUE"));
    assert_eq!(TypeTag::Unknown, tag_of("int"));
    assert_eq!(TypeTag::Unknown, tag_of("STRING "));
    assert_eq!(TypeTag::Unknown, tag_of(""));
}

#[test]
fn empty_schema_is_a_schema_error() {
    let r = generate_table(Some(",,".to_string()), 3, None, None, &|_t: TypeTag| String::new());
    assert_eq!(Err(DataError::Schema), r.map(|_| ()));
}

#[test]
fn schema_text_builds_columns_in_order() {
    let t = generate_table(
        Some("b:VALUE, a:NOPE, c:INT_INC".to_string()),
        3,
        None,
        None,
        &|_t: TypeTag| String::new(),
    )
    .unwrap();
    assert_eq!(vec!["b".to_string(), "a".to_string(), "c".to_string()], t.names);
    assert_eq!(3, t.height());
    assert_eq!(3, t.columns.len());
}

#[test]
fn default_schema_used_without_text() {
    let t = generate_table(None, 2, None, None, &|_t: TypeTag| String::new()).unwrap();
    assert_eq!(4, t.columns.len());
    assert_eq!(2, t.height());
}
