use gencsv::dataframe::{build_data_vector, build_table, create_column, create_dataframe};
use gencsv::delete::{parse_delete_expr, parse_delete_target, DeleteTarget};
use gencsv::error::DataError;
use gencsv::registry::TypeTag;
use gencsv::schema::{parse_schema, Schema};
use gencsv::sequence::{build_incremental_int, parse_range_string};
use gencsv::table::{append, filter_by_index, Cell, Table};

fn no_floats(_t: TypeTag) -> String {
    String::from("0.5")
}

fn col(name: &str, datatype: &str, modifier: Option<&str>) -> Schema {
    Schema {
        name: String::from(name),
        datatype: String::from(datatype),
        modifier: modifier.map(String::from),
    }
}

fn ints(v: &[i32]) -> Vec<Cell> {
    v.iter().map(|x| Cell::Int(*x)).collect()
}

fn table(names: &[&str], cols: Vec<Vec<Cell>>) -> Table {
    Table {
        names: names.iter().map(|s| s.to_string()).collect(),
        columns: cols,
    }
}

#[test]
fn test_create_dataframe() {
    let schema = vec![
        Schema {
            name: String::from("col1"),
            datatype: String::from("INT"),
            modifier: None,
        },
        Schema {
            name: String::from("col2"),
            datatype: String::from("STRING"),
            modifier: None,
        },
        Schema {
            name: String::from("col3"),
            datatype: String::from("LOREM_WORD"),
            modifier: None,
        },
    ];

    let df = create_dataframe(schema.clone(), 10, None, Some("1,2".to_string()), &no_floats).unwrap();
    assert_eq!((df.height(), df.width()), (8, 3));

    let df = create_dataframe(schema.clone(), 10, None, None, &no_floats).unwrap();
    assert_eq!((df.height(), df.width()), (10, 3));
}

#[test]
fn test_build_data_vector() {
    let data = build_data_vector(10, || 1);
    assert_eq!(data, vec![1, 1, 1, 1, 1, 1, 1, 1, 1, 1]);
}

#[test]
fn dataframe_test_build_incremental_int() {
    let data = build_incremental_int(10, 0, 10);
    assert_eq!(data, vec![0, 1, 2, 3, 4, 5, 6, 7, 8, 9]);
}

#[test]
fn dataframe_test_build_incremental_int_with_negative() {
    let data = build_incremental_int(10, -10, 10);
    assert_eq!(data, vec![-10, -9, -8, -7, -6, -5, -4, -3, -2, -1]);
}

#[test]
fn dataframe_test_build_incremental_underun_size() {
    let data = build_incremental_int(10, 0, 5);
    assert_eq!(data, vec![0, 1, 2, 3, 4, 5, 6, 7, 8, 9]);
}

#[test]
fn dataframe_test_build_incremental_overrun_size() {
    let data = build_incremental_int(10, 0, 200);
    assert_eq!(data, vec![0, 1, 2, 3, 4, 5, 6, 7, 8, 9]);
}

#[test]
fn dataframe_test_parse_range_string() {
    let data = parse_range_string("(0-10)");
    assert_eq!(data.unwrap(), (0, 10));
}

#[test]
fn dataframe_test_parse_negative_range_string() {
    let data = parse_range_string("(-10-10)");
    assert_eq!(data.unwrap(), (-10, 10));
}

#[test]
fn test_delete_target() {
    let data = parse_delete_target("1,2,3", 10);
    assert_eq!(data.unwrap(), vec![1, 2, 3]);

    let data = parse_delete_target("1-3", 10);
    assert_eq!(data.unwrap(), vec![1, 2, 3]);

    let data = parse_delete_target("5", 10);
    assert_eq!(data.unwrap(), vec![5]);

    let data = parse_delete_target("random", 10).unwrap();
    assert!(data.len() >= 1 && data.len() <= 10);
    assert!(data.iter().all(|i| *i >= 0 && *i <= 10));

    let bad_result = parse_delete_target("xyz", 10);
    assert!(bad_result.is_err());

    let bad_result = parse_delete_target("100-2,3", 10);
    assert!(bad_result.is_err());

    let bad_result = parse_delete_target("", 10);
    assert!(bad_result.is_err());
}

#[test]
fn incremental_empty_and_reversed_end() {
    assert_eq!(build_incremental_int(0, 5, 9), Vec::<i32>::new());
    assert_eq!(build_incremental_int(-3, 5, 9), Vec::<i32>::new());
    assert_eq!(build_incremental_int(3, 5, 0), vec![5, 6, 7]);
    assert_eq!(build_incremental_int(2, i32::MAX - 1, 0), vec![i32::MAX - 1, i32::MAX]);
}

#[test]
fn range_string_forms() {
    assert_eq!(parse_range_string("(1 -  100)"), Ok((1, 100)));
    assert_eq!(parse_range_string("(-5--2)"), Ok((-5, -2)));
    assert_eq!(parse_range_string("x(3-4)y(5-6)"), Ok((3, 4)));
    assert_eq!(parse_range_string("(a-1)(7-8)"), Ok((7, 8)));
    assert_eq!(parse_range_string("0-10"), Err(DataError::RangeParse));
    assert_eq!(parse_range_string("(1-)"), Err(DataError::RangeParse));
    assert_eq!(parse_range_string(""), Err(DataError::RangeParse));
    assert_eq!(parse_range_string("(99999999999-1)"), Err(DataError::RangeParse));
    assert_eq!(parse_range_string("(-2147483648-2147483647)"), Ok((i32::MIN, i32::MAX)));
}

#[test]
fn delete_expr_forms() {
    assert!(matches!(parse_delete_expr("random"), Ok(DeleteTarget::Random)));
    assert!(matches!(parse_delete_expr("Random"), Err(DataError::DeleteTargetParse)));
    assert!(matches!(parse_delete_expr("-4"), Ok(DeleteTarget::Single(-4))));
    assert!(matches!(parse_delete_expr("+4"), Ok(DeleteTarget::Single(4))));
    assert!(matches!(parse_delete_expr("-3--1"), Ok(DeleteTarget::Range(-3, -1))));
    assert!(matches!(parse_delete_expr("99999999999-1"), Err(DataError::DeleteTargetParse)));
    match parse_delete_expr(" 4 , 2,4") {
        Ok(DeleteTarget::List(v)) => assert_eq!(v, vec![4, 2, 4]),
        _ => panic!("expected a list"),
    }
    assert!(matches!(parse_delete_expr("1,,2"), Err(DataError::DeleteTargetParse)));
}

#[test]
fn delete_range_reversed_is_empty() {
    assert_eq!(parse_delete_target("5-3", 10).unwrap(), Vec::<i32>::new());
    assert_eq!(parse_delete_target("-2-1", 10).unwrap(), vec![-2, -1, 0, 1]);
}

#[test]
fn delete_random_without_rows() {
    let v = parse_delete_target("random", 0).unwrap();
    assert_eq!(v, vec![0]);
}

#[test]
fn filter_removes_listed_positions() {
    let t = table(&["a", "b"], vec![ints(&[10, 11, 12, 13]), ints(&[20, 21, 22, 23])]);
    let r = filter_by_index(&t, &vec![1, 3]);
    assert_eq!(r.names, t.names);
    assert_eq!(r.columns, vec![ints(&[10, 12]), ints(&[20, 22])]);
}

#[test]
fn filter_single_valid_index_drops_one_row() {
    let t = table(&["a"], vec![ints(&[0, 1, 2])]);
    assert_eq!(filter_by_index(&t, &vec![2]).height(), 2);
    assert_eq!(filter_by_index(&t, &vec![0]).columns, vec![ints(&[1, 2])]);
}

#[test]
fn filter_out_of_range_index_keeps_all_rows() {
    let t = table(&["a"], vec![ints(&[0, 1, 2])]);
    assert_eq!(filter_by_index(&t, &vec![3]).height(), 3);
    assert_eq!(filter_by_index(&t, &vec![-1]).height(), 3);
    assert_eq!(filter_by_index(&t, &vec![11]).columns, t.columns);
}

#[test]
fn filter_duplicates_act_as_set() {
    let t = table(&["a"], vec![ints(&[0, 1, 2, 3])]);
    let with_dups = filter_by_index(&t, &vec![1, 1, 2, 1]);
    let dedup = filter_by_index(&t, &vec![1, 2]);
    assert_eq!(with_dups.columns, dedup.columns);
    assert_eq!(with_dups.height(), 2);
}

#[test]
fn append_puts_target_rows_first() {
    let a = table(&["x", "y"], vec![ints(&[1, 2]), vec![Cell::Text("p".into()), Cell::Text("q".into())]]);
    let b = table(&["x", "y"], vec![ints(&[3]), vec![Cell::Text("r".into())]]);
    let r = append(&a, &b).unwrap();
    assert_eq!(r.height(), 3);
    assert_eq!(r.names, a.names);
    assert_eq!(r.columns[0], ints(&[1, 2, 3]));
    assert_eq!(
        r.columns[1],
        vec![Cell::Text("p".into()), Cell::Text("q".into()), Cell::Text("r".into())]
    );
}

#[test]
fn append_mismatch_fails() {
    let a = table(&["x", "y"], vec![ints(&[1]), ints(&[2])]);
    let b = table(&["x", "z"], vec![ints(&[3]), ints(&[4])]);
    assert!(matches!(append(&a, &b), Err(DataError::AppendSchemaMismatch)));
    let c = table(&["x"], vec![ints(&[3])]);
    assert!(matches!(append(&a, &c), Err(DataError::AppendSchemaMismatch)));
}

#[test]
fn create_dataframe_appends_then_deletes() {
    let target = table(&["n"], vec![ints(&[100, 101])]);
    let schema = vec![col("n", "INT_INC", None)];
    let t = create_dataframe(schema.clone(), 3, Some(target.clone()), None, &no_floats).unwrap();
    assert_eq!(t.columns, vec![ints(&[100, 101, 0, 1, 2])]);
    let t = create_dataframe(schema.clone(), 3, Some(target.clone()), Some("0-1".into()), &no_floats).unwrap();
    assert_eq!(t.columns, vec![ints(&[0, 1, 2])]);
    let bad = table(&["m"], vec![ints(&[1])]);
    assert!(matches!(
        create_dataframe(schema.clone(), 3, Some(bad), Some("zz".into()), &no_floats),
        Err(DataError::AppendSchemaMismatch)
    ));
    assert!(matches!(
        create_dataframe(schema, 3, None, Some("zz".into()), &no_floats),
        Err(DataError::DeleteTargetParse)
    ));
}

#[test]
fn int_rng_counts_from_lower_bound() {
    let c = create_column(&col("r", "INT_RNG", Some("(5-100)")), 4, &no_floats);
    assert_eq!(c, ints(&[5, 6, 7, 8]));
    let c = create_column(&col("r", "INT_RNG", Some("(5-1)")), 2, &no_floats);
    assert_eq!(c, ints(&[5, 6]));
}

#[test]
fn int_rng_default_range_when_modifier_bad_or_missing() {
    let c = create_column(&col("r", "INT_RNG", Some("junk")), 3, &no_floats);
    assert_eq!(c, ints(&[0, 1, 2]));
    let c = create_column(&col("r", "INT_RNG", None), 3, &no_floats);
    assert_eq!(c, ints(&[0, 1, 2]));
}

#[test]
fn every_tag_gives_row_count_cells() {
    let tags = "a:STRING,b:INT,c:INT_INC,d:INT_RNG:(1-3),e:DIGIT,f:DECIMAL,g:DATE,h:TIME,i:DATE_TIME,\
        j:NAME,k:FIRST_NAME,l:LAST_NAME,m:ZIP_CODE,n:COUNTRY_CODE,o:STATE_NAME,p:STATE_ABBR,q:LAT,\
        r:LON,s:PHONE,t:PRICE,u:SSN,v:LOREM_WORD,w:LOREM_TITLE,x:LOREM_SENTENCE,y:LOREM_PARAGRAPH,\
        z:UUID,aa:VALUE,bb:SOMETHING_ELSE";
    let schema = parse_schema(tags);
    assert_eq!(28, schema.len());
    let t = build_table(&schema, 6, &no_floats);
    assert_eq!(28, t.columns.len());
    for c in &t.columns {
        assert_eq!(6, c.len());
    }
    assert_eq!(t.columns[27], vec![Cell::Text("unknown".into()); 6]);
    assert_eq!(t.columns[26], vec![Cell::Text("value".into()); 6]);
    assert_eq!(t.columns[5], vec![Cell::Text("0.5".into()); 6]);
    for cell in &t.columns[1] {
        match cell {
            Cell::Int(v) => assert!(*v >= 0 && *v < i32::MAX),
            _ => panic!("INT gives integers"),
        }
    }
    for cell in &t.columns[4] {
        match cell {
            Cell::Text(s) => assert!(s.len() == 1 && s.chars().all(|c| c.is_ascii_digit())),
            _ => panic!("DIGIT gives text"),
        }
    }
}

#[test]
fn zero_rows_gives_empty_columns() {
    let schema = parse_schema("a:INT_INC,b:STRING");
    let t = build_table(&schema, 0, &no_floats);
    assert_eq!(2, t.columns.len());
    assert_eq!(0, t.height());
}
