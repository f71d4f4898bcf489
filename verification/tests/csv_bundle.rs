use worldflow_core::db::csv_bundle::{
    all_csv_bytes_from_bundle, sort_categories_topological, CategoryRow, CsvExportItem,
    CsvImportBundle, CsvImportItem, WorldflowCsvTable,
};
use worldflow_core::db::csv_export::{build_export_item, schema_version_from_versions};
use worldflow_core::db::csv_import::{
    decode_all, decode_table, order_category_rows, parse_all_csv, parse_table, select_columns,
};
use worldflow_core::db::csv_tables::{decode_cell, encode_cell, Cell, CellKind};
use worldflow_core::error::WorldflowError;

fn s(x: &str) -> String {
    x.to_string()
}

fn strs(v: &[&str]) -> Vec<String> {
    v.iter().map(|x| x.to_string()).collect()
}

fn project_row(id: u128, name: &str, description: Option<&str>) -> Vec<Cell> {
    vec![
        Cell::Uuid(id),
        Cell::Text(s(name)),
        Cell::OptText(description.map(s)),
        Cell::OptText(None),
        Cell::Text(s("2024-01-01 00:00:00")),
        Cell::Text(s("2024-01-02 00:00:00")),
    ]
}

fn empty_item(table: WorldflowCsvTable) -> CsvExportItem {
    build_export_item(table, &Vec::new()).unwrap()
}

#[test]
fn tables_come_in_export_order_with_their_file_names() {
    let names: Vec<&str> = WorldflowCsvTable::ordered().into_iter().map(|t| t.file_name()).collect();
    assert_eq!(
        names,
        vec![
            "projects.csv",
            "categories.csv",
            "tag_schemas.csv",
            "entry_types.csv",
            "entries.csv",
            "entry_relations.csv",
            "entry_links.csv",
            "idea_notes.csv"
        ]
    );
    assert_eq!(WorldflowCsvTable::IdeaNotes.index(), 7);
}

#[test]
fn export_item_holds_header_rows_and_digest() {
    let rows = vec![project_row(1, "主线, \"世界\"", Some("line1\nline2"))];
    let item = build_export_item(WorldflowCsvTable::Projects, &rows).unwrap();
    assert_eq!(item.file_name, "projects.csv");
    assert_eq!(item.row_count, 1);
    assert!(item.content.starts_with("id,name,description,cover_image,created_at,updated_at\n"));
    assert!(item.content.contains("00000000-0000-0000-0000-000000000001"));
    let digest = <sha2::Sha256 as sha2::Digest>::digest(item.content.as_bytes());
    let hex: String = digest.iter().map(|b| format!("{b:02x}")).collect();
    assert_eq!(item.sha256, hex);
}

#[test]
fn export_of_no_rows_is_empty_and_reads_back_empty() {
    let item = empty_item(WorldflowCsvTable::Entries);
    assert_eq!(item.content, "");
    assert_eq!(item.row_count, 0);
    assert_eq!(
        item.sha256,
        "e3b0c44298fc1c149afbf4c8996fb92427ae41e4649b934ca495991b7852b855"
    );
    let rows = parse_table(item.content.as_bytes(), WorldflowCsvTable::Entries).unwrap();
    assert!(rows.is_empty());
}

#[test]
fn exported_table_reads_back_as_the_same_cells() {
    let rows = vec![
        project_row(0x0123_4567_89ab_cdef_0123_4567_89ab_cdef, "A, \"quoted\"", Some("x\r\ny")),
        project_row(2, "", None),
    ];
    let item = build_export_item(WorldflowCsvTable::Projects, &rows).unwrap();
    let fields = parse_table(item.content.as_bytes(), WorldflowCsvTable::Projects).unwrap();
    assert_eq!(fields.len(), 2);
    assert_eq!(fields[0][1], "A, \"quoted\"");
    assert_eq!(fields[1][2], "null");
    let cells = decode_table(&fields, WorldflowCsvTable::Projects).unwrap();
    assert_eq!(cells, rows);
}

#[test]
fn columns_are_picked_by_name() {
    let header = strs(&["name", "extra", "id"]);
    let records = vec![strs(&["n1", "e1", "i1"]), strs(&["n2", "e2", "i2"])];
    let picked = select_columns(&header, &strs(&["id", "name"]), &records).unwrap();
    assert_eq!(picked, vec![strs(&["i1", "n1"]), strs(&["i2", "n2"])]);
}

#[test]
fn a_repeated_column_is_refused() {
    let header = strs(&["id", "name", "id"]);
    let records = vec![strs(&["1", "2", "3"])];
    match select_columns(&header, &strs(&["id", "name"]), &records) {
        Err(WorldflowError::Csv(m)) => assert_eq!(m, "duplicate field `id`"),
        other => panic!("unexpected {other:?}"),
    }
}

#[test]
fn a_missing_column_is_refused_unless_there_are_no_rows() {
    let header = strs(&["id"]);
    match select_columns(&header, &strs(&["id", "name"]), &vec![strs(&["1"])]) {
        Err(WorldflowError::Csv(m)) => assert_eq!(m, "missing field `name`"),
        other => panic!("unexpected {other:?}"),
    }
    assert!(select_columns(&header, &strs(&["id", "name"]), &Vec::new()).unwrap().is_empty());
}

#[test]
fn unequal_record_lengths_are_a_csv_error() {
    let r = parse_table(b"id,name\n1,2,3\n", WorldflowCsvTable::Projects);
    assert!(matches!(r, Err(WorldflowError::Csv(_))));
}

#[test]
fn cells_round_trip_and_bad_cells_are_refused() {
    let c = Cell::OptUuid(Some(42));
    assert_eq!(decode_cell(CellKind::OptUuid, &encode_cell(&c)).unwrap(), c);
    assert_eq!(decode_cell(CellKind::OptUuid, "").unwrap(), Cell::OptUuid(None));
    assert_eq!(decode_cell(CellKind::Int, "-17").unwrap(), Cell::Int(-17));
    assert_eq!(encode_cell(&Cell::Int(-17)), "-17");
    assert_eq!(decode_cell(CellKind::OptText, "plain").unwrap(), Cell::OptText(Some(s("plain"))));
    assert_eq!(decode_cell(CellKind::OptText, "").unwrap(), Cell::OptText(None));
    assert_eq!(decode_cell(CellKind::OptText, " null ").unwrap(), Cell::OptText(None));
    assert!(matches!(decode_cell(CellKind::OptText, "\"broken"), Err(WorldflowError::Serialization(_))));
    match decode_cell(CellKind::Int, "12x") {
        Err(WorldflowError::InvalidInput(m)) => {
            assert_eq!(m, "invalid number '12x': invalid digit found in string")
        }
        other => panic!("unexpected {other:?}"),
    }
    match decode_cell(CellKind::Uuid, "not-a-uuid") {
        Err(WorldflowError::InvalidInput(m)) => assert!(m.starts_with("invalid UUID 'not-a-uuid': ")),
        other => panic!("unexpected {other:?}"),
    }
}

#[test]
fn first_bad_row_decides_the_decode_error() {
    let rows = vec![
        strs(&["00000000-0000-0000-0000-000000000001", "a", "null", "null", "t", "t"]),
        strs(&["bad", "b", "\"oops", "null", "t", "t"]),
    ];
    assert!(matches!(
        decode_table(&rows, WorldflowCsvTable::Projects),
        Err(WorldflowError::InvalidInput(_))
    ));
}

fn cat(id: &str, parent: &str) -> CategoryRow {
    CategoryRow {
        id: s(id),
        project_id: s("p"),
        parent_id: s(parent),
        name: s(id),
        sort_order: s("0"),
        created_at: s(""),
        updated_at: s(""),
    }
}

#[test]
fn categories_are_ordered_parents_first_and_orphans_last() {
    let rows = vec![cat("c", "b"), cat("b", "a"), cat("x", "missing"), cat("a", "")];
    let order: Vec<String> = sort_categories_topological(rows).into_iter().map(|r| r.id).collect();
    assert_eq!(order, strs(&["a", "b", "c", "x"]));
}

#[test]
fn category_rows_are_ordered_by_their_fields() {
    let rows = vec![
        strs(&["c", "p", "a", "n", "0", "t", "t"]),
        strs(&["a", "p", "", "n", "0", "t", "t"]),
    ];
    let ordered = order_category_rows(&rows);
    assert_eq!(ordered[0][0], "a");
    assert_eq!(ordered[1][0], "c");
}

fn full_export() -> Vec<CsvExportItem> {
    WorldflowCsvTable::ordered()
        .into_iter()
        .map(|t| {
            if t == WorldflowCsvTable::Projects {
                build_export_item(t, &vec![project_row(9, "世界", None)]).unwrap()
            } else {
                empty_item(t)
            }
        })
        .collect()
}

#[test]
fn a_full_bundle_imports_what_was_exported() {
    let bundle = CsvImportBundle::from_export_items(full_export());
    assert_eq!(bundle.items.len(), 8);
    let bytes = all_csv_bytes_from_bundle(bundle).unwrap();
    let parsed = parse_all_csv(&bytes).unwrap();
    let decoded = decode_all(&parsed).unwrap();
    assert_eq!(decoded.tables.len(), 8);
    assert_eq!(decoded.tables[0], vec![project_row(9, "世界", None)]);
    assert!(decoded.tables[1..].iter().all(|t| t.is_empty()));
}

#[test]
fn a_repeated_table_in_a_bundle_is_refused() {
    let mut items = full_export();
    items.push(empty_item(WorldflowCsvTable::Entries));
    let err = all_csv_bytes_from_bundle(CsvImportBundle::from_export_items(items)).err().unwrap();
    assert_eq!(err.message(), "参数错误: 重复的 CSV 表: Entries");
}

#[test]
fn a_missing_table_in_a_bundle_is_refused() {
    let items: Vec<CsvImportItem> = CsvImportBundle::from_export_items(full_export())
        .items
        .into_iter()
        .filter(|i| i.table != WorldflowCsvTable::Categories)
        .collect();
    let err = all_csv_bytes_from_bundle(CsvImportBundle { items }).err().unwrap();
    assert_eq!(err.message(), "参数错误: 缺少 CSV 表: Categories");
}

#[test]
fn schema_version_is_the_largest_that_fits() {
    assert_eq!(schema_version_from_versions(&[1, 3, 2]), 3);
    assert_eq!(schema_version_from_versions(&[-1, 5_000_000_000]), 0);
    assert_eq!(schema_version_from_versions(&[]), 0);
    assert_eq!(schema_version_from_versions(&[7, 5_000_000_000]), 7);
}
