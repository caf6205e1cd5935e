use parquetgrip::query::{
    build_count_query, build_page_query, build_probe_query, build_schema_query,
    checked_page_offset, display_row_range, total_pages,
};

#[test]
fn probe_query_text_is_exact() {
    assert_eq!(
        build_probe_query("/tmp/a.parquet"),
        "SELECT 1 FROM read_parquet('/tmp/a.parquet') LIMIT 0;"
    );
}

#[test]
fn schema_query_text_is_exact() {
    assert_eq!(
        build_schema_query("x.parquet"),
        "DESCRIBE SELECT * FROM read_parquet('x.parquet');"
    );
}

#[test]
fn count_query_without_filter() {
    assert_eq!(
        build_count_query("x.parquet", &None),
        "SELECT count(*) FROM read_parquet('x.parquet');"
    );
}

#[test]
fn count_query_honors_filter() {
    assert_eq!(
        build_count_query("x.parquet", &Some(String::from("id > 5"))),
        "SELECT count(*) FROM read_parquet('x.parquet') WHERE id > 5;"
    );
}

#[test]
fn page_query_with_all_clauses() {
    assert_eq!(
        build_page_query(
            "x.parquet",
            &Some(String::from("a > 1")),
            &Some(String::from("b DESC")),
            Some(1000),
            Some(2000),
        ),
        "SELECT * FROM read_parquet('x.parquet') WHERE a > 1 ORDER BY b DESC LIMIT 1000 OFFSET 2000"
    );
}

#[test]
fn page_query_bare() {
    assert_eq!(
        build_page_query("x.parquet", &None, &None, None, None),
        "SELECT * FROM read_parquet('x.parquet')"
    );
}

#[test]
fn page_offset_is_page_minus_one_times_size() {
    assert_eq!(checked_page_offset(1, 1000), Some(0));
    assert_eq!(checked_page_offset(2, 1000), Some(1000));
    assert_eq!(checked_page_offset(3, 1000), Some(2000));
    assert_eq!(checked_page_offset(7, 250), Some(1500));
}

#[test]
fn page_offset_rejects_page_zero_and_overflow() {
    assert_eq!(checked_page_offset(0, 1000), None);
    assert_eq!(checked_page_offset(usize::MAX, 2), None);
}

#[test]
fn displayed_row_numbers_are_one_based_and_contiguous() {
    assert_eq!(display_row_range(1, 1000, 1000), (1, 1000));
    assert_eq!(display_row_range(3, 1000, 500), (2001, 2500));
    assert_eq!(display_row_range(2, 1000, 0), (1001, 1000));
}

#[test]
fn total_pages_is_the_ceiling_and_at_least_one() {
    assert_eq!(total_pages(0, 1000), 1);
    assert_eq!(total_pages(1, 1000), 1);
    assert_eq!(total_pages(1000, 1000), 1);
    assert_eq!(total_pages(1001, 1000), 2);
    assert_eq!(total_pages(2500, 1000), 3);
    assert_eq!(total_pages(3000, 1000), 3);
}
