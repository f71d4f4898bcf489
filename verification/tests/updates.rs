use worldflow_core::db::csv_codec::{parse_i64, write_csv_string};
use worldflow_core::db::entry::{check_save_target, plan_outgoing_links};
use worldflow_core::db::snapshot::commit_goes_ahead;
use worldflow_core::db::update::{plan_entry_update, plan_idea_note_update, plan_project_update, three_state_text};
use worldflow_core::error::WorldflowError;
use worldflow_core::models::entry::{FCImage, SaveEntryLinkTarget, UpdateEntry};
use worldflow_core::models::idea_note::{IdeaNoteStatus, UpdateIdeaNote};
use worldflow_core::models::project::UpdateProject;

fn s(x: &str) -> String {
    x.to_string()
}

fn image(path: &str, is_cover: bool) -> FCImage {
    FCImage { path: s(path), is_cover, caption: None }
}

fn no_change() -> UpdateEntry {
    UpdateEntry {
        category_id: None,
        title: None,
        summary: None,
        content: None,
        entry_type: None,
        tags: None,
        images: None,
        cover_path: None,
    }
}

#[test]
fn clearable_fields_have_three_states() {
    assert_eq!(three_state_text(&None), (false, None));
    assert_eq!(three_state_text(&Some(None)), (true, None));
    assert_eq!(three_state_text(&Some(Some(s("")))), (true, Some(s(""))));
    assert_eq!(three_state_text(&Some(Some(s("摘要")))), (true, Some(s("摘要"))));
}

#[test]
fn entry_update_keeps_clears_and_sets() {
    let v = plan_entry_update(&no_change());
    assert_eq!(v.title, None);
    assert!(!v.set_summary && !v.set_category && !v.set_type && !v.set_cover);

    let mut input = no_change();
    input.title = Some(s("新标题"));
    input.summary = Some(None);
    input.category_id = Some(Some(9));
    input.entry_type = Some(Some(s("character")));
    let v = plan_entry_update(&input);
    assert_eq!(v.title, Some(s("新标题")));
    assert!(v.set_summary);
    assert_eq!(v.summary, None);
    assert!(v.set_category);
    assert_eq!(v.category_id, Some(9));
    assert!(v.set_type);
    assert_eq!(v.entry_type, Some(s("character")));
    assert!(!v.set_cover);
}

#[test]
fn entry_update_cover_comes_from_path_else_images() {
    let mut input = no_change();
    input.images = Some(vec![image("a.png", false), image("b.png", true)]);
    let v = plan_entry_update(&input);
    assert!(v.set_cover);
    assert_eq!(v.cover_path, Some(s("b.png")));

    input.cover_path = Some(Some(s("c.png")));
    let v = plan_entry_update(&input);
    assert_eq!(v.cover_path, Some(s("c.png")));

    input.cover_path = Some(None);
    let v = plan_entry_update(&input);
    assert!(v.set_cover);
    assert_eq!(v.cover_path, None);

    let mut input = no_change();
    input.images = Some(vec![image("a.png", false)]);
    let v = plan_entry_update(&input);
    assert!(v.set_cover);
    assert_eq!(v.cover_path, None);
}

#[test]
fn idea_note_update_values() {
    let input = UpdateIdeaNote {
        title: Some(None),
        content: Some(s("正文")),
        status: Some(IdeaNoteStatus::Archived),
        pinned: Some(true),
        last_reviewed_at: None,
        converted_entry_id: Some(Some(5)),
    };
    let v = plan_idea_note_update(&input);
    assert!(v.set_title);
    assert_eq!(v.title, None);
    assert_eq!(v.content, Some(s("正文")));
    assert_eq!(v.status, Some("archived"));
    assert_eq!(v.pinned, Some(true));
    assert!(!v.set_last_reviewed_at);
    assert!(v.set_converted_entry_id);
    assert_eq!(v.converted_entry_id, Some(5));

    let v = plan_idea_note_update(&UpdateIdeaNote::none());
    assert!(!v.set_title && !v.set_last_reviewed_at && !v.set_converted_entry_id);
    assert_eq!(v.status, None);
}

#[test]
fn project_update_values() {
    let v = plan_project_update(&UpdateProject {
        name: None,
        description: Some(Some(s(""))),
        cover_image: Some(None),
    });
    assert_eq!(v.name, None);
    assert!(v.set_description);
    assert_eq!(v.description, Some(s("")));
    assert!(v.set_cover_image);
    assert_eq!(v.cover_image, None);
}

#[test]
fn outgoing_links_resolve_dedup_and_skip_self() {
    let rows = vec![(2u128, s("甲")), (3u128, s(" 乙 ")), (4u128, s("乙"))];
    let targets = vec![
        SaveEntryLinkTarget { entry_id: None, title: s("乙") },
        SaveEntryLinkTarget { entry_id: Some(1), title: s("自己") },
        SaveEntryLinkTarget { entry_id: Some(4), title: s("") },
        SaveEntryLinkTarget { entry_id: None, title: s("没有") },
        SaveEntryLinkTarget { entry_id: None, title: s(" 甲") },
    ];
    assert_eq!(plan_outgoing_links(1, &rows, &targets), vec![4, 2]);
}

#[test]
fn pre_rollback_commit_is_made_even_without_changes() {
    assert!(commit_goes_ahead(Some("t"), "t", true));
    assert!(!commit_goes_ahead(Some("t"), "t", false));
    assert!(commit_goes_ahead(Some("t"), "u", false));
    assert!(commit_goes_ahead(None, "t", false));
}

#[test]
fn csv_writing_succeeds_when_rows_match_the_header() {
    let header = vec![s("id"), s("name")];
    let text = write_csv_string(&header, vec![vec![s("1"), s("a,b")]]).unwrap();
    assert_eq!(text, "id,name\n1,\"a,b\"\n");
    assert_eq!(write_csv_string(&header, Vec::new()).unwrap(), "");
}

#[test]
fn integer_cells_accept_only_signed_digits_in_range() {
    assert_eq!(parse_i64("42").unwrap(), 42);
    assert_eq!(parse_i64("-7").unwrap(), -7);
    for bad in ["", " 1", "1.0", "9223372036854775808"] {
        assert!(matches!(parse_i64(bad), Err(WorldflowError::InvalidInput(_))), "{bad}");
    }
}

#[test]
fn csv_quotes_only_where_needed() {
    let header = vec![s("a"), s("b")];
    let rows = vec![vec![s("x\"y"), s("")], vec![s("line\nbreak"), s("plain")]];
    assert_eq!(write_csv_string(&header, rows).unwrap(), "a,b\n\"x\"\"y\",\n\"line\nbreak\",plain\n");
}

#[test]
fn a_save_is_checked_before_anything_is_written() {
    let entry = 0x0192_0000_0000_7000_8000_0000_0000_0001u128;
    match check_save_target(None, entry, 7) {
        Err(WorldflowError::NotFound(m)) => assert_eq!(m, "entry 01920000-0000-7000-8000-000000000001"),
        other => panic!("{other:?}"),
    }
    match check_save_target(Some(8), entry, 7) {
        Err(WorldflowError::InvalidInput(m)) => assert_eq!(m, "词条不属于当前项目"),
        other => panic!("{other:?}"),
    }
    assert!(check_save_target(Some(7), entry, 7).is_ok());
}
