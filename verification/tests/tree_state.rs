use darkside::messages::TreeState;
use darkside::tree_state::{Field, FieldError, TreeStateError, TreeStateFields};

const DOCUMENT: &str = r#"{
    "network": "regtest",
    "height": 18446744073709551615,
    "hash": "0abc",
    "time": 4294967295,
    "saplingTree": "000000",
    "orchardTree": "0100",
    "other": [1, {"height": 2}]
}"#;

fn expected() -> TreeState {
    TreeState {
        network: "regtest".to_string(),
        height: u64::MAX,
        hash: "0abc".to_string(),
        time: u32::MAX,
        sapling_tree: "000000".to_string(),
        orchard_tree: "0100".to_string(),
    }
}

fn fields() -> TreeStateFields {
    TreeStateFields {
        network: Some("regtest".to_string()),
        height: Some(7),
        hash: Some("ab".to_string()),
        time: Some(9),
        sapling_tree: Some("01".to_string()),
        orchard_tree: Some("02".to_string()),
    }
}

fn field_error(document: &str) -> FieldError {
    match TreeState::from_file(document) {
        Err(TreeStateError::Field(error)) => error,
        other => panic!("{:?}", other),
    }
}

#[test]
fn tree_state_from_a_document() {
    assert_eq!(TreeState::from_file(DOCUMENT).unwrap(), expected());
}

#[test]
fn tree_state_from_no_document() {
    for text in ["", "{", "{\"network\": }", "{} x"] {
        assert!(matches!(TreeState::from_file(text), Err(TreeStateError::Json(_))));
    }
}

#[test]
fn tree_state_with_a_field_missing() {
    let cases = [
        ("network", Field::Network),
        ("height", Field::Height),
        ("hash", Field::Hash),
        ("time", Field::Time),
        ("saplingTree", Field::SaplingTree),
        ("orchardTree", Field::OrchardTree),
    ];
    for (name, field) in cases {
        let document = DOCUMENT.replacen(&format!("\"{}\"", name), "\"renamed\"", 1);
        assert_eq!(field_error(&document), FieldError::Missing(field));
    }
}

#[test]
fn tree_state_with_a_field_of_another_type() {
    let with_height = |height: &str| DOCUMENT.replace("18446744073709551615", height);
    for height in ["-1", "1.0", "\"1\"", "null", "18446744073709551616", "1e2"] {
        assert_eq!(field_error(&with_height(height)), FieldError::Missing(Field::Height));
    }
    let network = DOCUMENT.replace("\"regtest\"", "5");
    assert_eq!(field_error(&network), FieldError::Missing(Field::Network));
    let time = DOCUMENT.replace("4294967295", "9223372036854775808");
    assert_eq!(field_error(&time), FieldError::Missing(Field::Time));
}

#[test]
fn tree_state_from_a_document_that_is_no_object() {
    for document in ["[]", "\"network\"", "null", "3"] {
        assert_eq!(field_error(document), FieldError::Missing(Field::Network));
    }
}

#[test]
fn tree_state_time_has_to_fit() {
    for time in ["4294967296", "-1", "-9223372036854775808"] {
        let document = DOCUMENT.replace("4294967295", time);
        assert_eq!(field_error(&document), FieldError::TimeOutOfRange);
    }
    let zero = DOCUMENT.replace("4294967295", "0");
    assert_eq!(TreeState::from_file(&zero).unwrap().time, 0);
}

#[test]
fn tree_state_last_of_two_equal_keys_counts() {
    let document = DOCUMENT.replace("\"other\"", "\"network\": \"main\", \"other\"");
    assert_eq!(TreeState::from_file(&document).unwrap().network, "main");
}

#[test]
fn tree_state_from_fields() {
    let state = TreeState::from_fields(fields()).unwrap();
    assert_eq!(
        state,
        TreeState {
            network: "regtest".to_string(),
            height: 7,
            hash: "ab".to_string(),
            time: 9,
            sapling_tree: "01".to_string(),
            orchard_tree: "02".to_string(),
        }
    );
}

#[test]
fn tree_state_time_is_looked_at_before_the_trees() {
    let mut none = fields();
    none.time = Some(-5);
    none.sapling_tree = None;
    none.orchard_tree = None;
    assert_eq!(TreeState::from_fields(none), Err(FieldError::TimeOutOfRange));
    let mut trees = fields();
    trees.sapling_tree = None;
    trees.orchard_tree = None;
    assert_eq!(TreeState::from_fields(trees), Err(FieldError::Missing(Field::SaplingTree)));
}

#[test]
fn tree_state_first_missing_field_is_named() {
    let mut missing = fields();
    missing.hash = None;
    missing.height = None;
    missing.time = None;
    assert_eq!(TreeState::from_fields(missing), Err(FieldError::Missing(Field::Height)));
}

#[test]
fn tree_state_at_another_height() {
    let moved = expected().at_height(3);
    assert_eq!(moved.height, 3);
    assert_eq!(moved.at_height(u64::MAX), expected());
    assert_eq!(expected().clone(), expected());
}
