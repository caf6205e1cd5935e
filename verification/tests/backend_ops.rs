use parquetgrip::backend::Backend;
use parquetgrip::cell::CellValue;
use parquetgrip::messages::BackendMessage;

fn int_grid(rows: usize) -> Vec<Vec<CellValue>> {
    (0..rows).map(|i| vec![CellValue::Int(i as i128)]).collect()
}

#[test]
fn open_file_maps_probe_success_to_source_opened() {
    let b = Backend::new();
    match b.open_file(String::from("a.parquet"), Ok(())) {
        Ok(BackendMessage::SourceOpened { path }) => assert_eq!(path, "a.parquet"),
        other => panic!("unexpected: {:?}", other),
    }
}

#[test]
fn open_file_passes_probe_failure_through() {
    let b = Backend::new();
    match b.open_file(String::from("a.parquet"), Err(String::from("no such file"))) {
        Err(e) => assert_eq!(e, "no such file"),
        other => panic!("unexpected: {:?}", other),
    }
}

#[test]
fn schema_extracts_text_names_in_order() {
    let b = Backend::new();
    let cells = vec![
        CellValue::Text(b"id".to_vec()),
        CellValue::Text(b"name".to_vec()),
        CellValue::Int(5),
    ];
    match b.get_schema(String::from("a.parquet"), Ok(cells)) {
        Ok(BackendMessage::SchemaResolved { path, columns }) => {
            assert_eq!(path, "a.parquet");
            assert_eq!(columns, vec!["id", "name", ""]);
        },
        other => panic!("unexpected: {:?}", other),
    }
}

#[test]
fn row_count_reads_the_first_cell() {
    let b = Backend::new();
    assert_eq!(b.get_row_count(Ok(Some(CellValue::Int(2500)))), Ok(2500));
    assert_eq!(b.get_row_count(Ok(Some(CellValue::UInt(7)))), Ok(7));
    assert_eq!(b.get_row_count(Ok(None)), Ok(0));
    assert_eq!(b.get_row_count(Ok(Some(CellValue::Int(-3)))), Ok(0));
    assert_eq!(
        b.get_row_count(Err(String::from("boom"))),
        Err(String::from("boom"))
    );
}

#[test]
fn run_query_materializes_and_reports_the_query_text() {
    let b = Backend::new();
    let cells = vec![
        vec![CellValue::Int(1), CellValue::Text(b"a".to_vec())],
        vec![CellValue::Null, CellValue::Boolean(true)],
    ];
    match b.run_query(
        String::from("x.parquet"),
        &None,
        &Some(String::from("id")),
        Some(10),
        Some(0),
        Ok(cells),
    ) {
        Ok(BackendMessage::PageResolved { path, rows, executed_sql }) => {
            assert_eq!(path, "x.parquet");
            assert_eq!(
                executed_sql,
                "SELECT * FROM read_parquet('x.parquet') ORDER BY id LIMIT 10 OFFSET 0"
            );
            assert_eq!(rows, vec![vec!["1", "a"], vec!["(null)", "true"]]);
        },
        other => panic!("unexpected: {:?}", other),
    }
}

#[test]
fn run_query_truncates_to_the_requested_limit() {
    let b = Backend::new();
    match b.run_query(
        String::from("x.parquet"),
        &None,
        &None,
        Some(1000),
        Some(0),
        Ok(int_grid(2500)),
    ) {
        Ok(BackendMessage::PageResolved { rows, .. }) => {
            assert_eq!(rows.len(), 1000);
            assert_eq!(rows[0][0], "0");
            assert_eq!(rows[999][0], "999");
        },
        other => panic!("unexpected: {:?}", other),
    }
}

#[test]
fn run_query_returns_a_short_final_page_whole() {
    let b = Backend::new();
    match b.run_query(
        String::from("x.parquet"),
        &None,
        &None,
        Some(1000),
        Some(2000),
        Ok(int_grid(500)),
    ) {
        Ok(BackendMessage::PageResolved { rows, .. }) => assert_eq!(rows.len(), 500),
        other => panic!("unexpected: {:?}", other),
    }
}

#[test]
fn run_query_enforces_the_safety_cap_without_a_limit() {
    let b = Backend::new();
    match b.run_query(String::from("x"), &None, &None, None, None, Ok(int_grid(50001))) {
        Ok(BackendMessage::PageResolved { rows, .. }) => assert_eq!(rows.len(), 50000),
        other => panic!("unexpected: {:?}", other),
    }
}

#[test]
fn run_query_cuts_wide_rows_to_the_first_rows_width() {
    let b = Backend::new();
    let cells = vec![
        vec![CellValue::Int(1)],
        vec![CellValue::Int(2), CellValue::Int(3)],
    ];
    match b.run_query(String::from("x"), &None, &None, None, None, Ok(cells)) {
        Ok(BackendMessage::PageResolved { rows, .. }) => {
            assert_eq!(rows, vec![vec!["1"], vec!["2"]]);
        },
        other => panic!("unexpected: {:?}", other),
    }
}

#[test]
fn run_query_rejects_a_row_narrower_than_the_first() {
    let b = Backend::new();
    let cells = vec![
        vec![CellValue::Int(1), CellValue::Int(2)],
        vec![CellValue::Int(3)],
    ];
    match b.run_query(String::from("x"), &None, &None, None, None, Ok(cells)) {
        Err(e) => assert_eq!(e, "page row narrower than first row"),
        other => panic!("unexpected: {:?}", other),
    }
}

#[test]
fn run_query_passes_engine_failure_through() {
    let b = Backend::new();
    match b.run_query(
        String::from("x"),
        &Some(String::from("nonexistent_column > 0")),
        &None,
        Some(1000),
        Some(0),
        Err(String::from("Binder Error: column nonexistent_column not found")),
    ) {
        Err(e) => assert!(e.contains("nonexistent_column")),
        other => panic!("unexpected: {:?}", other),
    }
}

#[test]
fn paging_a_fixture_covers_every_row_exactly_once() {
    let b = Backend::new();
    let total: usize = 2500;
    let size: usize = 1000;
    let grid = int_grid(total);
    let pages = parquetgrip::query::total_pages(total, size);
    assert_eq!(pages, 3);
    let mut seen: Vec<String> = Vec::new();
    let mut lens: Vec<usize> = Vec::new();
    for page in 1..=pages {
        let offset = parquetgrip::query::checked_page_offset(page, size).unwrap();
        // The engine applies LIMIT/OFFSET; hand the decision core the window.
        let window: Vec<Vec<CellValue>> =
            grid[offset..total.min(offset + size)].to_vec();
        match b.run_query(String::from("x"), &None, &None, Some(size), Some(offset), Ok(window)) {
            Ok(BackendMessage::PageResolved { rows, .. }) => {
                lens.push(rows.len());
                for r in rows {
                    seen.push(r[0].clone());
                }
            },
            other => panic!("unexpected: {:?}", other),
        }
    }
    assert_eq!(lens, vec![1000, 1000, 500]);
    assert_eq!(seen.len(), total);
    for (i, s) in seen.iter().enumerate() {
        assert_eq!(s, &i.to_string());
    }
}

#[test]
fn repeating_a_request_yields_byte_identical_output() {
    let b = Backend::new();
    let cells = vec![
        vec![CellValue::Date32(19000), CellValue::Text(vec![0xff, b'a'])],
        vec![CellValue::Timestamp(parquetgrip::cell::TimeUnit::Millisecond, -1500), CellValue::Null],
    ];
    let run = |cells: Vec<Vec<CellValue>>| {
        match b.run_query(
            String::from("x"),
            &Some(String::from("k > 0")),
            &Some(String::from("k")),
            Some(100),
            Some(0),
            Ok(cells),
        ) {
            Ok(BackendMessage::PageResolved { rows, executed_sql, .. }) => (rows, executed_sql),
            other => panic!("unexpected: {:?}", other),
        }
    };
    let first = run(cells.clone());
    let second = run(cells);
    assert_eq!(first, second);
}
