use worldflow_core::db::entry::{
    check_entry_project, check_entry_type, check_title_free, collect_custom_type_pairs,
    count_entries_sql, cover_path_from_images, create_cover_path, custom_type_count_verdict,
    custom_types_verdict, escape_fts5_phrase, escape_like_pattern, list_entries_sql,
    normalize_entry_compare_text, normalize_entry_lookup_title, normalize_relation_endpoints,
    plan_entry_search, plan_relation_patches, resolve_link_targets, type_pair_chunks,
    type_pairs_sql, update_cover_path, EntrySearchPlan, EntryTypeCheck, RelationAction,
};
use worldflow_core::db::entry_link::normalize_linked_entry_ids;
use worldflow_core::error::WorldflowError;
use worldflow_core::models::entry::{CreateEntry, FCImage, SaveEntryLinkTarget, SaveEntryRelationPatch};
use worldflow_core::models::entry_relation::{EntryRelation, RelationDirection};

fn s(x: &str) -> String {
    x.to_string()
}

fn msg(e: WorldflowError) -> String {
    e.message()
}

#[test]
fn like_pattern_escapes_backslash_and_wildcards() {
    assert_eq!(escape_like_pattern(r"50%_off\x"), r"50\%\_off\\x");
    assert_eq!(escape_like_pattern("plain"), "plain");
}

#[test]
fn fts_phrase_is_trimmed_and_quoted() {
    assert_eq!(escape_fts5_phrase("  say \"hi\" "), Some(s("\"say \"\"hi\"\"\"")));
    assert_eq!(escape_fts5_phrase(" \t\n"), None);
}

#[test]
fn compare_text_unifies_line_breaks_and_trims() {
    assert_eq!(normalize_entry_compare_text("  a\r\nb\rc\n "), "a\nb\nc");
    assert_eq!(normalize_entry_compare_text("\r\r\n"), "");
}

#[test]
fn lookup_title_trims_and_lowercases() {
    assert_eq!(normalize_entry_lookup_title("  Über Dragon "), "über dragon");
}

#[test]
fn entry_type_text_is_checked_before_the_database() {
    assert_eq!(check_entry_type(None).unwrap(), EntryTypeCheck::Accepted);
    assert_eq!(check_entry_type(Some("character")).unwrap(), EntryTypeCheck::Accepted);
    let id = uuid::Uuid::parse_str("018f0d4e-6b30-7c2a-9f65-8d7b3a1c2e4f").unwrap();
    assert_eq!(
        check_entry_type(Some("018f0d4e-6b30-7c2a-9f65-8d7b3a1c2e4f")).unwrap(),
        EntryTypeCheck::NeedsCustomType(id.as_u128())
    );
    assert_eq!(
        msg(check_entry_type(Some("robot")).unwrap_err()),
        "参数错误: Invalid builtin entry type: robot"
    );
    assert!(custom_type_count_verdict(1).is_ok());
    assert_eq!(
        msg(custom_type_count_verdict(0).unwrap_err()),
        "参数错误: 自定义词条类型不存在或不属于当前项目"
    );
}

#[test]
fn save_checks_project_and_title() {
    assert!(check_entry_project(1, 1).is_ok());
    assert_eq!(msg(check_entry_project(1, 2).unwrap_err()), "参数错误: 词条不属于当前项目");
    let rows = vec![(1u128, s("Dragon\r\n")), (2u128, s("Castle"))];
    assert_eq!(check_title_free(&rows, 1, " Dragon\n").unwrap(), "Dragon");
    assert_eq!(
        msg(check_title_free(&rows, 3, "Dragon").unwrap_err()),
        "参数错误: 当前分类下已存在同名词条，请更换标题。"
    );
}

#[test]
fn link_targets_resolve_by_id_or_title() {
    let rows = vec![(10u128, s("Alpha")), (11u128, s("beta")), (12u128, s(" ALPHA "))];
    let targets = vec![
        SaveEntryLinkTarget { entry_id: Some(99), title: s("ignored") },
        SaveEntryLinkTarget { entry_id: None, title: s("alpha") },
        SaveEntryLinkTarget { entry_id: None, title: s("nobody") },
        SaveEntryLinkTarget { entry_id: None, title: s("BETA") },
    ];
    assert_eq!(resolve_link_targets(&rows, &targets), vec![99, 12, 11]);
}

#[test]
fn linked_ids_drop_self_and_repeats() {
    assert_eq!(normalize_linked_entry_ids(5, &[3, 5, 3, 4]), vec![3, 4]);
}

#[test]
fn two_way_endpoints_are_ordered() {
    assert_eq!(normalize_relation_endpoints(9, 2, &RelationDirection::TwoWay), (2, 9));
    assert_eq!(normalize_relation_endpoints(9, 2, &RelationDirection::OneWay), (9, 2));
}

fn rel(id: u128, a: u128, b: u128, d: RelationDirection, content: &str) -> EntryRelation {
    EntryRelation {
        id,
        project_id: 1,
        a_id: a,
        b_id: b,
        relation: d,
        content: s(content),
        created_at: s(""),
        updated_at: s(""),
    }
}

fn patch(id: Option<u128>, a: u128, b: u128, d: RelationDirection, content: &str) -> SaveEntryRelationPatch {
    SaveEntryRelationPatch { id, a_id: a, b_id: b, relation: d, content: s(content) }
}

#[test]
fn relation_patches_plan_inserts_replacements_updates_and_deletions() {
    let (one, two) = (RelationDirection::OneWay, RelationDirection::TwoWay);
    let existing = vec![
        rel(1, 5, 3, one, "friend"),
        rel(2, 5, 7, one, "rival"),
        rel(3, 5, 8, one, "same"),
        rel(4, 5, 9, one, "gone"),
    ];
    let patches = vec![
        patch(None, 6, 5, two, " new\r\n"),
        patch(Some(1), 5, 4, one, "friend"),
        patch(Some(2), 5, 7, two, "rival"),
        patch(Some(3), 5, 8, one, "same\n"),
    ];
    let plan = plan_relation_patches(&existing, &patches);
    assert_eq!(
        plan.actions,
        vec![
            RelationAction::Insert { a_id: 5, b_id: 6, relation: two, content: s("new") },
            RelationAction::Replace { old_id: 1, a_id: 5, b_id: 4, relation: one, content: s("friend") },
            RelationAction::Update { id: 2, relation: two, content: s("rival"), swap: false },
            RelationAction::Keep { id: 3 },
        ]
    );
    assert_eq!(plan.deletions, vec![4]);
}

#[test]
fn an_update_to_two_way_swaps_out_of_order_ends() {
    let existing = vec![rel(1, 9, 2, RelationDirection::OneWay, "x")];
    let patches = vec![patch(Some(1), 9, 2, RelationDirection::TwoWay, "x")];
    let plan = plan_relation_patches(&existing, &patches);
    assert_eq!(
        plan.actions,
        vec![RelationAction::Update { id: 1, relation: RelationDirection::TwoWay, content: s("x"), swap: true }]
    );
}

fn image(path: &str, cover: bool) -> FCImage {
    FCImage { path: s(path), is_cover: cover, caption: None }
}

#[test]
fn cover_comes_from_the_path_or_the_first_cover_image() {
    let images = vec![image("a.png", false), image("b.png", true), image("c.png", true)];
    assert_eq!(cover_path_from_images(&images), Some(s("b.png")));
    assert_eq!(create_cover_path(&None, &Some(images.clone())), Some(s("b.png")));
    assert_eq!(create_cover_path(&Some(s("own.png")), &Some(images.clone())), Some(s("own.png")));
    assert_eq!(update_cover_path(&None, &Some(vec![image("a.png", false)])), Some(None));
    assert_eq!(update_cover_path(&Some(None), &Some(images)), Some(None));
    assert_eq!(update_cover_path(&None, &None), None);
}

#[test]
fn listing_queries_add_the_filter_in_bind_order() {
    assert_eq!(
        count_entries_sql(true, true),
        "SELECT COUNT(*) as cnt FROM entries WHERE project_id = ? AND category_id = ? AND type = ?"
    );
    assert!(list_entries_sql(false, true).ends_with(" AND type = ? ORDER BY updated_at DESC LIMIT ? OFFSET ?"));
}

#[test]
fn short_queries_search_with_like_and_long_ones_with_fts() {
    match plan_entry_search(" a_ ", false, false, 10).unwrap() {
        EntrySearchPlan::Like { pattern, limit, sql } => {
            assert_eq!(pattern, "%a\\_%");
            assert_eq!(limit, 10);
            assert!(sql.contains("LIKE ? ESCAPE"));
        }
        other => panic!("unexpected {other:?}"),
    }
    match plan_entry_search("dragon", true, false, 200).unwrap() {
        EntrySearchPlan::Fts { phrase, fts_limit, limit, sql } => {
            assert_eq!(phrase, "\"dragon\"");
            assert_eq!(fts_limit, 500);
            assert_eq!(limit, 200);
            assert!(sql.ends_with(" AND category_id = ? ORDER BY updated_at DESC LIMIT ?"));
        }
        other => panic!("unexpected {other:?}"),
    }
    match plan_entry_search("dragon", false, false, 3).unwrap() {
        EntrySearchPlan::Fts { fts_limit, .. } => assert_eq!(fts_limit, 12),
        other => panic!("unexpected {other:?}"),
    }
    assert_eq!(msg(plan_entry_search("x", false, false, usize::MAX).unwrap_err()), "参数错误: limit 过大");
}

fn create(project: u128, typ: Option<&str>) -> CreateEntry {
    CreateEntry {
        project_id: project,
        category_id: None,
        title: s("t"),
        summary: None,
        content: None,
        entry_type: typ.map(s),
        tags: None,
        images: None,
        cover_path: None,
    }
}

#[test]
fn bulk_type_check_collects_distinct_custom_pairs() {
    let u = "018f0d4e-6b30-7c2a-9f65-8d7b3a1c2e4f";
    let id = uuid::Uuid::parse_str(u).unwrap().as_u128();
    let inputs = vec![create(1, Some(u)), create(1, None), create(1, Some("item")), create(1, Some(u)), create(2, Some(u))];
    assert_eq!(collect_custom_type_pairs(&inputs).unwrap(), vec![(1, id), (2, id)]);
    let bad = vec![create(1, Some(u)), create(1, Some("nope")), create(1, Some("worse"))];
    assert_eq!(
        msg(collect_custom_type_pairs(&bad).unwrap_err()),
        "参数错误: Invalid builtin entry type: nope"
    );
}

#[test]
fn bulk_type_query_and_chunks() {
    assert_eq!(
        type_pairs_sql(2),
        "SELECT project_id, id FROM entry_types WHERE (project_id = ? AND id = ?) OR (project_id = ? AND id = ?)"
    );
    let pairs: Vec<(u128, u128)> = (0..901u128).map(|i| (i, i)).collect();
    let chunks = type_pair_chunks(&pairs);
    assert_eq!(chunks.iter().map(|c| c.len()).collect::<Vec<_>>(), vec![400, 400, 101]);
    assert_eq!(chunks.concat(), pairs);
    assert!(custom_types_verdict(2, &vec![(1, 1), (2, 2), (1, 1)]).is_ok());
    assert_eq!(
        msg(custom_types_verdict(2, &vec![(1, 1)]).unwrap_err()),
        "参数错误: 自定义词条类型不存在或不属于当前项目"
    );
}
