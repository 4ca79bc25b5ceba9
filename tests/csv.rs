use gencsv::csv::{create_default_csv, create_default_csv_context, create_schema_csv_context, format_csv, int_to_text};
use gencsv::schema::parse_schema;
use gencsv::table::{Cell, Table};

#[test]
fn test_create_default_csv() {
    let subject = create_default_csv_context(5, ',', false);
    assert_eq!(5, subject.columns.len());
    assert_eq!("col0", subject.columns.get(0).unwrap().name);
    assert_eq!("col1", subject.columns.get(1).unwrap().name);
    assert_eq!("col2", subject.columns.get(2).unwrap().name);
    assert_eq!("col3", subject.columns.get(3).unwrap().name);
    assert_eq!("col4", subject.columns.get(4).unwrap().name);
}

#[test]
fn default_csv_text() {
    let text = create_default_csv(2, ',', false);
    assert_eq!(
        "col0,col1,col2,col3,col4\nvalue,value,value,value,value\nvalue,value,value,value,value\n",
        text
    );
    let text = create_default_csv(1, '|', true);
    assert_eq!("value|value|value|value|value\n", text);
    assert_eq!("col0;col1;col2;col3;col4\n", create_default_csv(0, ';', false));
}

#[test]
fn format_csv_writes_cells() {
    let t = Table {
        names: vec!["n".to_string(), "s".to_string()],
        columns: vec![
            vec![Cell::Int(-12), Cell::Int(0), Cell::Int(i32::MIN)],
            vec![Cell::Text("a".into()), Cell::Text("".into()), Cell::Text("c".into())],
        ],
    };
    assert_eq!("n\ts\n-12\ta\n0\t\n-2147483648\tc\n", format_csv(&t, '\t', true));
}

#[test]
fn integers_in_decimal() {
    assert_eq!("0", int_to_text(0));
    assert_eq!("907", int_to_text(907));
    assert_eq!("2147483647", int_to_text(i32::MAX));
    assert_eq!("-5", int_to_text(-5));
}

#[test]
fn schema_context_keeps_settings() {
    let ctx = create_schema_csv_context(parse_schema("a:INT"), 7, ';', true);
    assert_eq!(7, ctx.rows);
    assert_eq!(';', ctx.delimiter);
    assert!(ctx.remove_header);
    assert_eq!(1, ctx.columns.len());
}
