use gencsv::fake::{
    capitalize, fake_digit, fake_int, fake_lorem_paragraph, fake_lorem_sentence, fake_lorem_title,
    fake_lorem_word, paragraph_of, sentence_of, title_of, unknown_string, value_string,
};
use gencsv::sequence::{build_incremental_int, parse_range_string};

#[test]
fn fake_test_build_incremental_int() {
    let data = build_incremental_int(10, 0, 10);
    assert_eq!(data, vec![0, 1, 2, 3, 4, 5, 6, 7, 8, 9]);
}

#[test]
fn fake_test_build_incremental_int_with_negative() {
    let data = build_incremental_int(10, -10, 10);
    assert_eq!(data, vec![-10, -9, -8, -7, -6, -5, -4, -3, -2, -1]);
}

#[test]
fn fake_test_build_incremental_underun_size() {
    let data = build_incremental_int(10, 0, 5);
    assert_eq!(data, vec![0, 1, 2, 3, 4, 5, 6, 7, 8, 9]);
}

#[test]
fn fake_test_build_incremental_overrun_size() {
    let data = build_incremental_int(10, 0, 200);
    assert_eq!(data, vec![0, 1, 2, 3, 4, 5, 6, 7, 8, 9]);
}

#[test]
fn fake_test_parse_range_string() {
    let data = parse_range_string("(0-10)");
    assert_eq!(data.unwrap(), (0, 10));
}

#[test]
fn fake_test_parse_negative_range_string() {
    let data = parse_range_string("(-10-10)");
    assert_eq!(data.unwrap(), (-10, 10));
}

#[test]
fn title_capitalizes_and_joins() {
    let words = vec!["hello".to_string(), "wide".to_string(), "world".to_string()];
    assert_eq!("Hello Wide World", title_of(&words));
    assert_eq!("", title_of(&vec![]));
    assert_eq!("Émile", capitalize(&"émile".to_string()));
    assert_eq!("SSbc", capitalize(&"ßbc".to_string()));
}

#[test]
fn sentence_joins_and_ends_with_stop() {
    let words = vec!["ut".to_string(), "enim".to_string()];
    assert_eq!("ut enim.", sentence_of(&words));
}

#[test]
fn generated_lorem_shapes() {
    let t = fake_lorem_title();
    assert!(!t.is_empty());
    assert!(t.chars().next().unwrap().is_uppercase());
    assert!(t.split(' ').count() >= 1 && t.split(' ').count() <= 3);
    let s = fake_lorem_sentence();
    assert!(s.ends_with('.'));
    assert!(s.split(' ').count() <= 14);
}

#[test]
fn fixed_generators() {
    assert_eq!("value", value_string());
    assert_eq!("unknown", unknown_string());
    let d = fake_digit();
    assert_eq!(1, d.len());
    assert!(d.chars().all(|c| c.is_ascii_digit()));
    let i = fake_int();
    assert!(i >= 0 && i < i32::MAX);
}

#[test]
fn paragraph_joins_lines() {
    let s = vec!["a b.".to_string(), "c d e f.".to_string()];
    assert_eq!("a b.\nc d e f.", paragraph_of(&s));
    let p = fake_lorem_paragraph();
    let lines: Vec<&str> = p.split('\n').collect();
    assert!(lines.len() >= 1 && lines.len() < 100);
    for l in lines {
        assert!(l.ends_with('.'));
        let n = l.split(' ').count();
        assert!(n >= 4 && n <= 9);
    }
}

#[test]
fn lorem_word_is_one_word() {
    let w = fake_lorem_word();
    assert!(!w.is_empty());
    assert!(!w.contains(' '));
}
