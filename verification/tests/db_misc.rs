use worldflow_core::db::category::{check_category_move, order_subtree_for_deletion};
use worldflow_core::db::entry_relation::{relation_from_stored, update_needs_swap};
use worldflow_core::db::entry_type::entry_type_deletable;
use worldflow_core::db::idea_note::{pg_plan_list_idea_notes, plan_list_idea_notes};
use worldflow_core::db::pg::{
    pg_count_entries_sql, pg_list_entries_sql, pg_plan_entry_search, pg_timestamp_text,
    pg_update_entry_type_sql,
};
use worldflow_core::db::project::{default_timeline_tag_definitions, default_timeline_tag_targets};
use worldflow_core::db::snapshot::{
    active_branch_file_name, branch_info, branch_ref_name, choose_active_branch,
    commit_has_changes, create_branch_start_ref, manual_snapshot_message, persisted_active_branch,
    pre_rollback_message, pre_switch_message, safety_snapshot_verdict, snapshot_verdict,
    start_ref_verdict, switch_start, switch_target_verdict, HeadState, SwitchStart,
};
use worldflow_core::db::tag_schema::{check_tag_default, encode_tag_targets};
use worldflow_core::db::{
    checked_limit, checked_pagination, checked_scaled_limit, matches_line_ending_variant,
    memory_mb_from_bytes, memory_pragmas, normalize_crlf_to_lf, normalize_lf_to_crlf,
    plan_checksum_repairs, require_affected, AppliedMigration, KnownMigration,
};
use worldflow_core::error::WorldflowError;
use worldflow_core::models::category::CreateCategory;
use worldflow_core::models::entry_relation::{EntryRelation, RelationDirection};
use worldflow_core::models::idea_note::{IdeaNoteFilter, IdeaNoteStatus};
use worldflow_core::text::{i64_to_string, parse_i64_str, IntParseFailure};

fn s(x: &str) -> String {
    x.to_string()
}

fn msg(e: WorldflowError) -> String {
    e.message()
}

#[test]
fn limits_are_checked_against_i64() {
    assert_eq!(checked_limit(5).unwrap(), 5);
    assert_eq!(msg(checked_limit(usize::MAX).unwrap_err()), "参数错误: limit 过大");
    assert_eq!(checked_pagination(3, 4).unwrap(), (3, 4));
    assert_eq!(msg(checked_pagination(3, usize::MAX).unwrap_err()), "参数错误: offset 过大");
    assert_eq!(checked_scaled_limit(10, 4, 0, 500).unwrap(), 40);
    assert_eq!(checked_scaled_limit(1000, 4, 0, 500).unwrap(), 500);
    assert_eq!(checked_scaled_limit(1, 4, 50, 500).unwrap(), 50);
    assert!(checked_scaled_limit(usize::MAX / 2, 4, 0, 500).is_err());
}

#[test]
fn memory_tiers_pick_cache_sizes() {
    assert_eq!(memory_pragmas(20_000), (-131072, 1073741824, "MEMORY"));
    assert_eq!(memory_pragmas(16_000), (-65536, 536870912, "MEMORY"));
    assert_eq!(memory_pragmas(5_000), (-32768, 268435456, "MEMORY"));
    assert_eq!(memory_pragmas(4_000), (-16384, 134217728, "DEFAULT"));
    assert_eq!(memory_mb_from_bytes(3 * 1024 * 1024 + 5), 3);
}

#[test]
fn line_endings_convert_both_ways() {
    assert_eq!(normalize_crlf_to_lf(b"a\r\nb\r\r\nc\r"), b"a\nb\r\nc\r".to_vec());
    assert_eq!(normalize_lf_to_crlf(b"a\nb\n"), b"a\r\nb\r\n".to_vec());
    assert_eq!(normalize_crlf_to_lf(&normalize_lf_to_crlf(b"x\ny")), b"x\ny".to_vec());
}

fn sha384(bytes: &[u8]) -> Vec<u8> {
    <sha2::Sha384 as sha2::Digest>::digest(bytes).to_vec()
}

#[test]
fn checksums_differing_only_in_line_endings_are_repaired() {
    let sql = b"CREATE TABLE t (id INT);\nCREATE INDEX i ON t(id);\n".to_vec();
    let crlf = normalize_lf_to_crlf(&sql);
    assert!(matches_line_ending_variant(&sha384(&crlf), &sql));
    assert!(!matches_line_ending_variant(&[0u8; 48], &sql));
    let known = vec![KnownMigration { version: 1, checksum: sha384(&sql), sql: sql.clone() }];
    let rows = vec![
        AppliedMigration { version: 1, checksum: sha384(&crlf) },
        AppliedMigration { version: 2, checksum: vec![1, 2] },
    ];
    assert_eq!(plan_checksum_repairs(&known, &rows), vec![(1, sha384(&sql))]);
    let real_mismatch = vec![AppliedMigration { version: 1, checksum: vec![0; 48] }];
    assert!(plan_checksum_repairs(&known, &real_mismatch).is_empty());
    let same = vec![AppliedMigration { version: 1, checksum: sha384(&sql) }];
    assert!(plan_checksum_repairs(&known, &same).is_empty());
}

#[test]
fn a_write_that_touches_nothing_is_not_found() {
    assert!(require_affected(1, "entry ", 5).is_ok());
    assert_eq!(
        msg(require_affected(0, "category ", 1).unwrap_err()),
        "记录不存在: category 00000000-0000-0000-0000-000000000001"
    );
}

#[test]
fn subtrees_are_deleted_deepest_first_keeping_order() {
    let nodes = vec![(1u128, 0i64), (2, 1), (3, 2), (4, 1), (5, 2)];
    assert_eq!(order_subtree_for_deletion(nodes), vec![(3, 2), (5, 2), (2, 1), (4, 1), (1, 0)]);
    assert!(check_category_move(false).is_ok());
    assert_eq!(
        msg(check_category_move(true).unwrap_err()),
        "参数错误: 不能将分类移动到自己的子孙节点下"
    );
    let c = CreateCategory { project_id: 1, parent_id: None, name: s("n"), sort_order: None };
    assert_eq!(c.sort_order_or_default(), 0);
}

#[test]
fn idea_note_listing_follows_the_filter() {
    let mut f = IdeaNoteFilter::all();
    f.only_global = true;
    f.status = Some(IdeaNoteStatus::Inbox);
    let p = plan_list_idea_notes(&f, 10, 20).unwrap();
    assert!(p.sql.ends_with(
        "WHERE 1=1 AND project_id IS NULL AND status = ? ORDER BY pinned DESC, updated_at DESC LIMIT ? OFFSET ?"
    ));
    assert_eq!((p.limit, p.offset), (10, 20));
    f.project_id = Some(3);
    assert_eq!(
        msg(plan_list_idea_notes(&f, 10, 0).unwrap_err()),
        "参数错误: only_global 与 project_id 不能同时使用"
    );
    let mut g = IdeaNoteFilter::all();
    g.project_id = Some(3);
    g.pinned = Some(true);
    let p = pg_plan_list_idea_notes(&g, 5, 0).unwrap();
    assert!(p.sql.ends_with(
        "WHERE 1=1 AND project_id = $1 AND pinned = $2 ORDER BY pinned DESC, updated_at DESC LIMIT $3 OFFSET $4"
    ));
    assert_eq!(msg(pg_plan_list_idea_notes(&g, usize::MAX, 0).unwrap_err()), "参数错误: limit 过大");
}

#[test]
fn postgres_queries_number_their_placeholders() {
    assert_eq!(
        pg_count_entries_sql(true, true),
        "SELECT COUNT(*) as cnt FROM entries WHERE project_id = $1 AND category_id = $2 AND type = $3"
    );
    assert!(pg_list_entries_sql(false, true).ends_with(" AND type = $2 ORDER BY updated_at DESC LIMIT $3 OFFSET $4"));
    let plan = pg_plan_entry_search(true, false, 10);
    assert_eq!(plan.fts_limit, 500);
    assert!(plan.sql.ends_with(" AND category_id = $4 ORDER BY updated_at DESC LIMIT $5"));
    assert_eq!(pg_plan_entry_search(false, false, 50).fts_limit, 1000);
    assert_eq!(pg_plan_entry_search(false, false, 500).fts_limit, 2000);
    assert_eq!(pg_update_entry_type_sql(false, false, false, false), None);
    assert_eq!(
        pg_update_entry_type_sql(true, false, true, false).unwrap(),
        "UPDATE entry_types SET name = $2, icon = $3 WHERE id = $4 RETURNING id, project_id, name, description, icon, color, created_at::TEXT, updated_at::TEXT"
    );
    assert_eq!(pg_timestamp_text("2024-01-02T03:04:05+00"), "2024-01-02 03:04:05");
}

#[test]
fn snapshot_branch_decisions() {
    assert_eq!(active_branch_file_name(), ".worldflow-active-branch");
    assert_eq!(branch_ref_name("feature"), "refs/heads/feature");
    assert_eq!(persisted_active_branch("  feature \n"), Some(s("feature")));
    assert_eq!(persisted_active_branch(" \n"), None);
    assert_eq!(choose_active_branch(Some(s("dev")), HeadState::NoHead).unwrap(), "dev");
    assert_eq!(choose_active_branch(None, HeadState::NoRepository).unwrap(), "main");
    assert_eq!(choose_active_branch(None, HeadState::NoHead).unwrap(), "main");
    assert_eq!(choose_active_branch(None, HeadState::Head(Some(s("x")))).unwrap(), "x");
    assert_eq!(
        msg(choose_active_branch(None, HeadState::Head(None)).unwrap_err()),
        "参数错误: 无法识别活动快照分支"
    );
    assert!(!commit_has_changes(Some("abc"), "abc"));
    assert!(commit_has_changes(Some("abc"), "abd"));
    assert!(commit_has_changes(None, "abc"));
    assert_eq!(snapshot_verdict(false), Err(WorldflowError::NoChanges));
    assert!(safety_snapshot_verdict(Err(WorldflowError::NoChanges)).is_ok());
    assert_eq!(safety_snapshot_verdict(Err(WorldflowError::Git(s("x")))), Err(WorldflowError::Git(s("x"))));
    assert_eq!(manual_snapshot_message(17), "manual 17");
    assert_eq!(pre_switch_message("feature", 5), "pre-switch-to-feature 5");
    assert_eq!(pre_rollback_message(0), "pre-rollback 0");
    let info = branch_info(s("main"), None, true, "main");
    assert!(info.is_active && info.is_current);
    assert_eq!(create_branch_start_ref(None, "main"), "refs/heads/main");
    assert_eq!(create_branch_start_ref(Some("abc123"), "main"), "abc123");
    assert_eq!(
        msg(start_ref_verdict(false).unwrap_err()),
        "参数错误: 当前没有基线提交，不能创建分支"
    );
    assert_eq!(switch_start("main", "main"), SwitchStart::AlreadyActive);
    assert_eq!(switch_start("main", "feature"), SwitchStart::Switch);
    assert_eq!(msg(switch_target_verdict(false, "nope").unwrap_err()), "记录不存在: 分支不存在: nope");
}

#[test]
fn tag_defaults_are_checked_against_the_type() {
    assert!(check_tag_default("number", Some("1.5"), true).is_ok());
    assert_eq!(
        msg(check_tag_default("number", Some("abc"), false).unwrap_err()),
        "参数错误: default_val 'abc' 不是合法数字"
    );
    assert_eq!(
        msg(check_tag_default("boolean", Some("yes"), false).unwrap_err()),
        "参数错误: default_val 'yes' 不是合法布尔值"
    );
    assert!(check_tag_default("boolean", Some("false"), false).is_ok());
    assert!(check_tag_default("string", Some("anything"), false).is_ok());
    assert!(check_tag_default("number", None, false).is_ok());
    assert_eq!(encode_tag_targets(&vec![s("event"), s("it\"em")]).unwrap(), "[\"event\",\"it\\\"em\"]");
    assert_eq!(encode_tag_targets(&Vec::new()).unwrap(), "[]");
}

#[test]
fn timeline_defaults_are_four_schemas_for_events() {
    let defs = default_timeline_tag_definitions();
    assert_eq!(defs.len(), 4);
    assert_eq!(defs[0].name, "开始年份");
    assert_eq!(defs[3].default_value, Some("true"));
    assert_eq!(defs[3].value_type, "boolean");
    assert_eq!(defs.iter().map(|d| d.sort_order).collect::<Vec<_>>(), vec![0, 1, 2, 3]);
    assert_eq!(default_timeline_tag_targets(), vec![s("event")]);
}

#[test]
fn relations_read_and_update() {
    assert_eq!(relation_from_stored("two_way").unwrap(), RelationDirection::TwoWay);
    assert_eq!(msg(relation_from_stored("sideways").unwrap_err()), "参数错误: 未知的关系类型: sideways");
    let r = EntryRelation {
        id: 1,
        project_id: 1,
        a_id: 9,
        b_id: 2,
        relation: RelationDirection::OneWay,
        content: s(""),
        created_at: s(""),
        updated_at: s(""),
    };
    assert!(update_needs_swap(Some(RelationDirection::TwoWay), &r));
    assert!(!update_needs_swap(None, &r));
    assert!(entry_type_deletable(false).is_ok());
    assert_eq!(
        msg(entry_type_deletable(true).unwrap_err()),
        "参数错误: Cannot delete entry type that is in use"
    );
}

#[test]
fn integers_print_and_parse_like_std() {
    assert_eq!(i64_to_string(i64::MIN), i64::MIN.to_string());
    assert_eq!(parse_i64_str("-9223372036854775808"), Ok(i64::MIN));
    assert_eq!(parse_i64_str("+7"), Ok(7));
    assert_eq!(parse_i64_str(""), Err(IntParseFailure::Empty));
    assert_eq!(parse_i64_str("-"), Err(IntParseFailure::InvalidDigit));
    assert_eq!(parse_i64_str("9223372036854775808"), Err(IntParseFailure::PosOverflow));
    assert_eq!(parse_i64_str("-9223372036854775809"), Err(IntParseFailure::NegOverflow));
}
