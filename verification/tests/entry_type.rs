use worldflow_core::models::entry_type::{
    builtin_entry_types, get_builtin_type, is_builtin_type, validate_builtin_type_key,
    CustomEntryType, EntryTypeView,
};

#[test]
fn test_builtin_entry_types_count() {
    assert_eq!(builtin_entry_types().len(), 9);
}

#[test]
fn test_builtin_entry_types_keys_unique() {
    let mut keys: Vec<&str> = builtin_entry_types().iter().map(|t| t.key).collect();
    keys.sort();
    keys.dedup();
    assert_eq!(keys.len(), 9, "All builtin keys should be unique");
}

#[test]
fn test_is_builtin_type_detection() {
    assert!(is_builtin_type("character"));
    assert!(is_builtin_type("organization"));
    assert!(!is_builtin_type("018f0d4e-6b30-7c2a-9f65-8d7b3a1c2e4f"));
}

#[test]
fn test_get_builtin_type() {
    let ct = get_builtin_type("character");
    assert!(ct.is_some());
    assert_eq!(ct.unwrap().name, "人物");

    let invalid = get_builtin_type("invalid_type");
    assert!(invalid.is_none());
}

#[test]
fn test_validate_builtin_type_key() {
    assert!(validate_builtin_type_key("character").is_ok());
    assert!(validate_builtin_type_key("invalid_type").is_err());
}

#[test]
fn test_entry_type_view_from_builtin() {
    let builtin = builtin_entry_types()[0];
    let view = EntryTypeView::from_builtin(builtin);
    assert_eq!(view.key_or_id(), "character");
    assert_eq!(view.name(), "人物");
}

#[test]
fn test_entry_type_view_from_custom() {
    let custom_id = uuid::Uuid::parse_str("018f0d4e-6b30-7c2a-9f65-8d7b3a1c2e4f").unwrap();
    let custom = CustomEntryType {
        id: custom_id.as_u128(),
        project_id: uuid::Uuid::now_v7().as_u128(),
        name: "自定义类型".to_string(),
        description: Some("描述".to_string()),
        icon: Some("🎨".to_string()),
        color: Some("#FF0000".to_string()),
        created_at: "2026-04-04T00:00:00".to_string(),
        updated_at: "2026-04-04T00:00:00".to_string(),
    };
    let view = EntryTypeView::from_custom(custom);
    assert_eq!(view.key_or_id(), "018f0d4e-6b30-7c2a-9f65-8d7b3a1c2e4f");
    assert_eq!(view.name(), "自定义类型");
}

#[test]
fn validate_builtin_type_key_names_the_key() {
    let err = validate_builtin_type_key("dragon").unwrap_err();
    assert_eq!(err.message(), "参数错误: Invalid builtin entry type: dragon");
}

#[test]
fn custom_view_defaults_icon_and_color() {
    let custom = CustomEntryType {
        id: 7,
        project_id: 8,
        name: "x".to_string(),
        description: None,
        icon: None,
        color: None,
        created_at: String::new(),
        updated_at: String::new(),
    };
    let view = EntryTypeView::from_custom(custom);
    assert_eq!(view.icon(), "📄");
    assert_eq!(view.color(), "#6B7280");
}
