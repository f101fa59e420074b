use yaml_pathfinder::error::{FieldError, FieldResultExt, Invalidatable};
use yaml_pathfinder::node::Node;
use yaml_pathfinder::path::{split_char, Paths, YPath, YPaths};

fn s(t: &str) -> Node {
    Node::Str(t.to_string())
}

fn hash(entries: Vec<(&str, Node)>) -> Node {
    Node::Hash(entries.into_iter().map(|(k, v)| (s(k), v)).collect())
}

fn folders() -> Node {
    hash(vec![(
        "home",
        hash(vec![(
            "hendrik",
            hash(vec![(
                "code",
                hash(vec![(
                    "rust",
                    Node::Array(vec![s("asciii"), s("notify-rust"), s("yaml_pathfinder")]),
                )]),
            )]),
        )]),
    )])
}

#[test]
fn scenario_nested_strings_and_hash() {
    let doc = folders();
    assert_eq!(doc.get_str("/home/hendrik/code/rust/1"), Ok("notify-rust"));
    assert_eq!(doc.get_str("home.hendrik.code.rust.2"), Ok("yaml_pathfinder"));
    let code = doc.get_hash("home.hendrik.code").unwrap();
    assert_eq!(code.len(), 1);
    assert_eq!(code[0].0, s("rust"));
}

#[test]
fn empty_path_is_root() {
    let doc = folders();
    assert_eq!(doc.get(""), Some(&doc));
    let leaf = s("x");
    assert_eq!(leaf.get(""), Some(&leaf));
    assert_eq!(leaf.get_str(""), Ok("x"));
}

#[test]
fn index_out_of_range_is_missing() {
    let doc = folders();
    assert_eq!(doc.get("home.hendrik.code.rust.10"), None);
    assert_eq!(doc.get_str("home.hendrik.code.rust.10"), Err(FieldError::Missing));
    assert_eq!(doc.get_str("home.hendrik.code.rust.3"), Err(FieldError::Missing));
}

#[test]
fn index_with_leading_zero_or_sign_is_missing() {
    let doc = folders();
    assert_eq!(doc.get_str("home.hendrik.code.rust.01"), Err(FieldError::Missing));
    assert_eq!(doc.get_str("home.hendrik.code.rust.+1"), Err(FieldError::Missing));
    assert_eq!(doc.get_str("home.hendrik.code.rust.0"), Ok("asciii"));
    assert_eq!(doc.get_str("home.hendrik.code.rust.99999999999999999999999"), Err(FieldError::Missing));
}

#[test]
fn separators_are_interchangeable() {
    let doc = folders();
    assert_eq!(doc.get("home/hendrik.code/rust.1"), doc.get("home.hendrik/code.rust/1"));
    assert_eq!(doc.get_str("home/hendrik/code/rust/1"), Ok("notify-rust"));
}

#[test]
fn extra_separators_are_ignored() {
    let doc = hash(vec![("a", hash(vec![("b", Node::Integer(7))]))]);
    assert_eq!(doc.get_int("/a/b/"), Ok(7));
    assert_eq!(doc.get_int("a.b"), Ok(7));
    assert_eq!(doc.get_int("//a..b//"), Ok(7));
    assert_eq!(doc.get_int(".a/./b."), Ok(7));
}

#[test]
fn alternation_is_left_biased() {
    let doc = hash(vec![("good", s("yes")), ("other", s("no"))]);
    assert_eq!(doc.get_str("bad|good"), Ok("yes"));
    assert_eq!(doc.get_str("good|other"), Ok("yes"));
    assert_eq!(doc.get_str("other|good"), Ok("no"));
    assert_eq!(doc.get_str("bad|worse"), Err(FieldError::Missing));
    assert_eq!(doc.get("bad|"), Some(&doc));
}

#[test]
fn wrong_type_is_invalid_not_missing() {
    let doc = folders();
    assert_eq!(doc.get_int("home.hendrik"), Err(FieldError::Invalid("wrong type".to_string())));
    assert_eq!(doc.get_str("home"), Err(FieldError::invalid("wrong type")));
    assert_eq!(doc.get_bool("home.hendrik.code.rust"), Err(FieldError::invalid("wrong type")));
    assert_eq!(doc.get_vec("home").err(), Some(FieldError::invalid("wrong type")));
    assert_eq!(doc.get_hash("home.hendrik.code.rust").err(), Some(FieldError::invalid("wrong type")));
    assert_eq!(doc.get_int("nowhere"), Err(FieldError::Missing));
}

#[test]
fn typed_getters_read_values() {
    let doc = hash(vec![
        ("n", Node::Integer(-3)),
        ("b", Node::Boolean(true)),
        ("r", Node::Real("2.5".to_string())),
        ("s", s("text")),
        ("v", Node::Array(vec![Node::Null])),
    ]);
    assert_eq!(doc.get_int("n"), Ok(-3));
    assert_eq!(doc.get_bool("b"), Ok(true));
    assert_eq!(doc.get_string("r"), Ok("2.5".to_string()));
    assert_eq!(doc.get_string("s"), Ok("text".to_string()));
    assert_eq!(doc.get_str("r"), Err(FieldError::invalid("wrong type")));
    assert_eq!(doc.get_vec("v").map(|v| v.len()), Ok(1));
    assert_eq!(doc.get_string("n"), Err(FieldError::invalid("wrong type")));
}

#[test]
fn keys_match_strings_only() {
    let doc = Node::Hash(vec![(Node::Integer(1), s("int key")), (s("1"), s("str key"))]);
    assert_eq!(doc.get_str("1"), Ok("str key"));
    let scalar = Node::Integer(5);
    assert_eq!(scalar.get("a"), None);
    assert_eq!(scalar.child("0"), None);
}

#[test]
fn if_missing_try_falls_back_only_on_missing() {
    let missing: Result<i64, FieldError> = Err(FieldError::Missing);
    assert_eq!(missing.if_missing_try(|| Ok(4)), Ok(4));
    let missing: Result<i64, FieldError> = Err(FieldError::Missing);
    assert_eq!(missing.if_missing_try(|| Err(FieldError::invalid("late"))), Err(FieldError::invalid("late")));
    let invalid: Result<i64, FieldError> = Err(FieldError::invalid("bad"));
    let mut called = false;
    let r = invalid.if_missing_try(|| {
        called = true;
        Ok(1)
    });
    assert_eq!(r, Err(FieldError::invalid("bad")));
    assert!(!called);
    let ok: Result<i64, FieldError> = Ok(2);
    assert_eq!(ok.if_missing_try(|| Ok(9)), Ok(2));
}

#[test]
fn field_result_queries() {
    let invalid: Result<(), FieldError> = Err(FieldError::invalid("why"));
    assert_eq!(invalid.invalid(), Some("why"));
    assert!(invalid.is_invalid());
    assert!(!invalid.is_missing());
    let missing: Result<(), FieldError> = Err(FieldError::Missing);
    assert_eq!(missing.invalid(), None);
    assert!(missing.is_missing());
    assert!(!missing.is_invalid());
    let ok: Result<(), FieldError> = Ok(());
    assert!(!ok.is_missing() && !ok.is_invalid());
    assert!(FieldError::Missing < FieldError::invalid(""));
}

#[test]
fn path_pieces() {
    let p = YPaths("a.b|/c//d|");
    let alts = p.alternatives();
    assert_eq!(alts.len(), 3);
    assert_eq!(alts[0].0, "a.b");
    assert_eq!(alts[1].elements(), vec!["c", "d"]);
    assert_eq!(alts[2].elements(), Vec::<&str>::new());
    assert_eq!(YPath("//a..b/").elements(), vec!["a", "b"]);
    let owned = Paths("x|y".to_string());
    assert_eq!(owned.as_ref().alternatives().len(), 2);
    assert_eq!(YPaths::from("q").0, "q");
    assert_eq!(split_char("1-2-", '-'), vec!["1", "2", ""]);
}
