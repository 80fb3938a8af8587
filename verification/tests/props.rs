//! Behavior of property bags: structural equality, lookup, update and the
//! text utilities.

use telamentis::props::{props_get, props_set, prop_value_eq, PropEntry, PropValue};
use telamentis::text::{str_contains, to_ascii_lowercase, trim_end_char, u64_to_dec};

fn entry(key: &str, value: PropValue) -> PropEntry {
    PropEntry {
        key: key.to_string(),
        value,
    }
}

#[test]
fn test_prop_value_equality() {
    assert!(prop_value_eq(&PropValue::Null, &PropValue::Null));
    assert!(prop_value_eq(&PropValue::Int(3), &PropValue::Int(3)));
    assert!(!prop_value_eq(&PropValue::Int(3), &PropValue::Int(4)));
    assert!(!prop_value_eq(&PropValue::Int(3), &PropValue::Null));
    assert!(prop_value_eq(
        &PropValue::Str("a".to_string()),
        &PropValue::Str("a".to_string())
    ));

    let tree_a = PropValue::Obj(vec![entry(
        "xs",
        PropValue::Arr(vec![PropValue::Int(1), PropValue::Bool(true)]),
    )]);
    let tree_b = PropValue::Obj(vec![entry(
        "xs",
        PropValue::Arr(vec![PropValue::Int(1), PropValue::Bool(true)]),
    )]);
    let tree_c = PropValue::Obj(vec![entry(
        "xs",
        PropValue::Arr(vec![PropValue::Int(1), PropValue::Bool(false)]),
    )]);
    assert!(prop_value_eq(&tree_a, &tree_b));
    assert!(!prop_value_eq(&tree_a, &tree_c));
    assert!(prop_value_eq(&tree_a.clone(), &tree_a));
}

#[test]
fn test_props_get_and_set() {
    let mut bag: Vec<PropEntry> = Vec::new();
    assert!(props_get(&bag, "age").is_none());

    props_set(&mut bag, "age".to_string(), PropValue::Int(30));
    props_set(&mut bag, "name".to_string(), PropValue::Str("Alice".to_string()));
    assert!(matches!(props_get(&bag, "age"), Some(PropValue::Int(30))));

    // Setting an existing key replaces its value in place.
    props_set(&mut bag, "age".to_string(), PropValue::Int(31));
    assert_eq!(bag.len(), 2);
    assert!(matches!(props_get(&bag, "age"), Some(PropValue::Int(31))));
    assert!(matches!(props_get(&bag, "name"), Some(PropValue::Str(s)) if s == "Alice"));
}

#[test]
fn test_text_utilities() {
    assert!(str_contains("/v1/graph/t1/nodes", "/graph/"));
    assert!(!str_contains("/v1/health", "/graph/"));
    assert!(str_contains("abc", ""));
    assert!(!str_contains("ab", "abc"));

    assert_eq!(trim_end_char("http://x////", '/'), "http://x");
    assert_eq!(trim_end_char("plain", '/'), "plain");
    assert_eq!(trim_end_char("", '/'), "");

    assert_eq!(u64_to_dec(0), "0");
    assert_eq!(u64_to_dec(907), "907");
    assert_eq!(u64_to_dec(18_446_744_073_709_551_615), "18446744073709551615");

    assert_eq!(to_ascii_lowercase("MiXeD_42"), "mixed_42");
}
