use volt::columns::{collect_object_columns, column_priority};
use volt::Json;

#[test]
fn test_collect_object_columns() {
    let obj1 = Json::Obj(vec![
        ("action".to_string(), Json::Str("allow".to_string())),
        ("tool".to_string(), Json::Str("Bash".to_string())),
    ]);
    let obj2 = Json::Obj(vec![
        ("action".to_string(), Json::Str("ask".to_string())),
        ("tool".to_string(), Json::Str("Read".to_string())),
    ]);
    let items = vec![obj1, obj2];
    let cols = collect_object_columns(&items);
    assert_eq!(cols, vec!["tool".to_string(), "action".to_string()]);
}

#[test]
fn test_collect_object_columns_non_objects() {
    let items = vec![Json::Str("a".to_string()), Json::Str("b".to_string())];
    assert!(collect_object_columns(&items).is_empty());
}

#[test]
fn test_collect_object_columns_mixed() {
    let obj = Json::Obj(vec![("key".to_string(), Json::Str("val".to_string()))]);
    let items = vec![obj, Json::Str("not an object".to_string())];
    assert!(collect_object_columns(&items).is_empty());
}

#[test]
fn test_column_priority_groups() {
    assert_eq!(column_priority("tool"), 0);
    assert_eq!(column_priority("name"), 0);
    assert_eq!(column_priority("pattern"), 0);
    assert_eq!(column_priority("key"), 0);
    assert_eq!(column_priority("action"), 1);
    assert_eq!(column_priority("decision"), 1);
    assert_eq!(column_priority("type"), 1);
    assert_eq!(column_priority("anything-else"), 2);
}
