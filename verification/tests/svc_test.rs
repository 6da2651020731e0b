use rs_czsc::svc::base::{apply_stats_style, generate_component_key, safe_import_daily_performance, safe_import_weight_backtest};

#[test]
fn test_generate_component_key() {
    let params = vec![("test", "value")];
    let key = generate_component_key("prefix", params);
    assert!(key.contains("prefix"));
    assert!(key.contains("test_value"));
}

#[test]
fn component_key_lists_parameters_in_order() {
    assert_eq!(generate_component_key("chart", vec![("a", "1"), ("b", "2")]), "chart_a_1_b_2");
    assert_eq!(generate_component_key("chart", vec![]), "chart");
}

#[test]
fn optional_parts_and_styling() {
    assert_eq!(safe_import_daily_performance(), Some(()));
    assert_eq!(safe_import_weight_backtest(), Some(()));
    assert_eq!(apply_stats_style(vec![3, 1, 2]), vec![3, 1, 2]);
}

#[test]
fn datetime_index_gives_no_rows() {
    let rows = rs_czsc::svc::base::ensure_datetime_index(vec![("2023-01-01".to_string(), 1.5f64)]);
    assert!(rows.is_empty());
}
