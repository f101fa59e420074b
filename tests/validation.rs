use yaml_pathfinder::error::FieldError;
use yaml_pathfinder::node::Node;
use yaml_pathfinder::util::{parse_dmy_date, parse_dmy_date_range, parse_i32, Date};
use yaml_pathfinder::validator::{message_for, Check, Rule, ValidationResult, Validator};

fn s(t: &str) -> Node {
    Node::Str(t.to_string())
}

fn result(errors: &[&str], missing: &[&str]) -> ValidationResult {
    ValidationResult {
        validation_errors: errors.iter().map(|e| e.to_string()).collect(),
        missing_fields: missing.iter().map(|e| e.to_string()).collect(),
    }
}

#[test]
fn scenario_party_validation() {
    let event = Node::Hash(vec![(s("name"), s("Party")), (s("num"), s("seven"))]);
    let validator = Validator::new()
        .add_rule(Rule::Str("name".to_string()))
        .add_rule(Rule::Int("num".to_string()))
        .require("date")
        .fin();
    let r = validator.validate(&event);
    assert_eq!(r.validation_errors, vec!["\"num\" is invalid: wrong type".to_string()]);
    assert_eq!(r.missing_fields, vec!["date".to_string()]);
    assert!(!r.is_ok());
}

#[test]
fn required_path_of_any_kind_is_present() {
    let event = Node::Hash(vec![(s("date"), Node::Integer(3))]);
    let mut builder = Validator::<Rule>::new();
    builder.require("/date").require("place|date").require("place");
    let validator = builder.fin();
    let r = validator.validate(&event);
    assert_eq!(r.missing_fields, vec!["place".to_string()]);
    assert!(r.validation_errors.is_empty());
    let again = builder.fin().validate(&event);
    assert!(again.is_ok());
}

#[test]
fn absent_rule_fields_are_not_errors() {
    let event = Node::Hash(vec![(s("flag"), Node::Boolean(false))]);
    let validator = Validator::new()
        .add_rule(Rule::Bool("flag".to_string()))
        .add_rule(Rule::Vec("items".to_string()))
        .add_rule(Rule::Hash("flag".to_string()))
        .add_rule(Rule::Text("flag".to_string()))
        .fin();
    let r = validator.validate(&event);
    assert_eq!(
        r.validation_errors,
        vec![
            "\"flag\" is invalid: wrong type".to_string(),
            "\"flag\" is invalid: wrong type".to_string()
        ]
    );
    assert!(r.missing_fields.is_empty());
}

#[test]
fn rule_check_quotes_the_path() {
    let doc = Node::Hash(vec![(s("a\"b"), s("x"))]);
    assert_eq!(Rule::Int("a\"b".to_string()).check(&doc), Some("\"a\\\"b\" is invalid: wrong type".to_string()));
    assert_eq!(Rule::Str("a\"b".to_string()).check(&doc), None);
}

#[test]
fn new_result_is_ok() {
    let r = ValidationResult::new();
    assert!(r.is_ok());
    r.unwrap();
}

#[test]
fn validate_field_records_invalid_only() {
    let mut r = ValidationResult::new();
    r.validate_field("a", Err::<i64, _>(FieldError::invalid("too big")));
    r.validate_field("b", Err::<i64, _>(FieldError::Missing));
    r.validate_field("c", Ok::<i64, FieldError>(1));
    assert_eq!(r, result(&["\"a\" is invalid: too big"], &[]));
}

#[test]
fn require_option_records_none() {
    let mut r = ValidationResult::new();
    r.require_option("x", None::<u8>);
    r.require_option("y", Some(1u8));
    assert_eq!(r, result(&[], &["x"]));
}

#[test]
fn require_field_records_missing_and_invalid() {
    let mut r = ValidationResult::new();
    r.require_field("m", Err::<i64, _>(FieldError::Missing));
    r.require_field("i", Err::<i64, _>(FieldError::invalid("nope")));
    r.require_field("o", Ok::<i64, FieldError>(0));
    assert_eq!(r, result(&["\"i\" is invalid: nope"], &["m", "i"]));
}

#[test]
fn and_concatenates_in_order() {
    let a = result(&["e1"], &["m1"]);
    let b = result(&["e2", "e3"], &["m2"]);
    assert_eq!(a.and(b), result(&["e1", "e2", "e3"], &["m1", "m2"]));
}

#[test]
fn and_is_associative() {
    let left = result(&["a"], &["x"]).and(result(&[], &["y"])).and(result(&["c"], &[]));
    let right = result(&["a"], &["x"]).and(result(&[], &["y"]).and(result(&["c"], &[])));
    assert_eq!(left, right);
    assert_eq!(left, result(&["a", "c"], &["x", "y"]));
}

#[test]
fn dmy_dates() {
    assert_eq!(parse_dmy_date("25.12.2016"), Some(Date { year: 2016, month: 12, day: 25 }));
    assert_eq!(parse_dmy_date("30.02.2016"), None);
    assert_eq!(parse_dmy_date("25.12.1900"), None);
    assert_eq!(parse_dmy_date("0.12.2016"), None);
    assert_eq!(parse_dmy_date("xx.12.2016"), None);
    assert_eq!(parse_dmy_date("25.12"), None);
    assert_eq!(parse_dmy_date("+1.1.2000"), Some(Date { year: 2000, month: 1, day: 1 }));
    assert_eq!(parse_dmy_date("29.2.2000.7"), Some(Date { year: 2000, month: 2, day: 29 }));
}

#[test]
fn dmy_date_ranges() {
    assert_eq!(parse_dmy_date_range("24-25.12.2016"), Some(Date { year: 2016, month: 12, day: 24 }));
    assert_eq!(parse_dmy_date_range("24.12.2016"), Some(Date { year: 2016, month: 12, day: 24 }));
    assert_eq!(parse_dmy_date_range("-25.12.2016"), None);
    assert_eq!(parse_dmy_date_range("24-25.13.2016"), None);
    assert_eq!(parse_dmy_date_range("1.1.1800"), Some(Date { year: 1800, month: 1, day: 1 }));
    assert_eq!(parse_dmy_date_range("1.1"), None);
}

fn folders() -> Node {
    let rust = Node::Array(vec![s("asciii"), s("notify-rust"), s("yaml_pathfinder")]);
    let code = Node::Hash(vec![(s("rust"), rust)]);
    let hendrik = Node::Hash(vec![(s("code"), code)]);
    let home = Node::Hash(vec![(s("hendrik"), hendrik)]);
    Node::Hash(vec![(s("home"), home)])
}

fn str_is(path: &str, want: &str) -> Rule {
    Rule::StrIs(path.to_string(), want.to_string())
}

#[test]
fn scenario_value_rules() {
    let doc = folders();
    let validator = Validator::new()
        .add_rule(str_is("/home/hendrik/code/rust/1", "notify-rust"))
        .add_rule(str_is("home.hendrik.code.rust.2", "yaml_pathfinder"))
        .add_rule(Rule::HasKey("home.hendrik.code".to_string(), "rust".to_string()))
        .fin();
    let r = validator.validate(&doc);
    assert!(r.validation_errors.is_empty());
    assert!(r.missing_fields.is_empty());
    assert!(r.is_ok());
}

#[test]
fn value_rules_report_their_reason() {
    let doc = folders();
    let validator = Validator::new()
        .add_rule(str_is("home.hendrik.code.rust.0", "notify-rust"))
        .add_rule(str_is("home.nobody", "x"))
        .add_rule(str_is("home.hendrik", "x"))
        .add_rule(Rule::HasKey("home.hendrik.code".to_string(), "python".to_string()))
        .add_rule(Rule::HasKey("home.hendrik.code.rust".to_string(), "0".to_string()))
        .fin();
    let r = validator.validate(&doc);
    assert_eq!(
        r.validation_errors,
        vec![
            "\"home.hendrik.code.rust.0\" is invalid: unexpected value".to_string(),
            "\"home.hendrik\" is invalid: wrong type".to_string(),
            "\"home.hendrik.code\" is invalid: key not found".to_string(),
            "\"home.hendrik.code.rust\" is invalid: wrong type".to_string(),
        ]
    );
    assert!(r.missing_fields.is_empty());
}

#[test]
fn rules_run_through_check() {
    let doc = folders();
    assert_eq!(str_is("home.hendrik.code.rust.1", "notify-rust").check(&doc), None);
    assert_eq!(
        Rule::Int("home".to_string()).check(&doc),
        message_for("home", Err::<(), FieldError>(FieldError::invalid("wrong type")))
    );
}

#[test]
fn i32_fields() {
    assert_eq!(parse_i32("2016"), Some(2016));
    assert_eq!(parse_i32("-17"), Some(-17));
    assert_eq!(parse_i32("+8"), Some(8));
    assert_eq!(parse_i32("007"), Some(7));
    assert_eq!(parse_i32("2147483647"), Some(2147483647));
    assert_eq!(parse_i32("-2147483648"), Some(-2147483648));
    assert_eq!(parse_i32("2147483648"), None);
    assert_eq!(parse_i32("-2147483649"), None);
    assert_eq!(parse_i32("99999999999999999999"), None);
    assert_eq!(parse_i32(""), None);
    assert_eq!(parse_i32("-"), None);
    assert_eq!(parse_i32("+"), None);
    assert_eq!(parse_i32("1a"), None);
    assert_eq!(parse_i32(" 1"), None);
}

#[test]
fn calendar_edges() {
    assert_eq!(parse_dmy_date("29.2.2016"), Some(Date { year: 2016, month: 2, day: 29 }));
    assert_eq!(parse_dmy_date("29.2.2100"), None);
    assert_eq!(parse_dmy_date("31.4.2016"), None);
    assert_eq!(parse_dmy_date("31.12.262142"), Some(Date { year: 262142, month: 12, day: 31 }));
    assert_eq!(parse_dmy_date("1.1.262143"), None);
    assert_eq!(parse_dmy_date_range("1.0.2000"), None);
}
