//! Tests for the point-value computation.

use know_ball::calculate_point_values;

fn names(cols: &[&str]) -> Vec<String> {
    cols.iter().map(|c| c.to_string()).collect()
}

fn row(fields: &[&str]) -> Vec<String> {
    fields.iter().map(|f| f.to_string()).collect()
}

#[test]
fn test_equal_point_distribution() {
    // Test with equal stats (all should get equal points)
    let rows = vec![
        vec!["Player1".to_string(), "100".to_string()],
        vec!["Player2".to_string(), "100".to_string()],
        vec!["Player3".to_string(), "100".to_string()],
    ];
    let column_names = vec!["name".to_string(), "yards".to_string()];

    let points = calculate_point_values(&rows, &column_names);

    assert_eq!(points.len(), 3);
    assert_eq!(points[0], 333); // 1000/3 ≈ 333
    assert_eq!(points[1], 333);
    assert_eq!(points[2], 333);
}

#[test]
fn test_inverse_scoring() {
    // Lower stats should get more points
    let rows = vec![
        vec!["Player1".to_string(), "1000".to_string()],
        vec!["Player2".to_string(), "500".to_string()],
    ];
    let column_names = vec!["name".to_string(), "yards".to_string()];

    let points = calculate_point_values(&rows, &column_names);

    assert_eq!(points.len(), 2);
    // Player with 500 yards should get more points than player with 1000
    assert!(points[1] > points[0]);
}

#[test]
fn test_point_sum_equals_1000() {
    let rows = vec![
        vec!["Player1".to_string(), "800".to_string()],
        vec!["Player2".to_string(), "600".to_string()],
        vec!["Player3".to_string(), "400".to_string()],
    ];
    let column_names = vec!["name".to_string(), "yards".to_string()];

    let points = calculate_point_values(&rows, &column_names);
    let sum: u32 = points.iter().sum();

    // Should sum to approximately 1000 (within rounding)
    assert!((sum as i32 - 1000).abs() <= 2);
}

#[test]
fn test_two_row_split_exact() {
    // Weights flip: the 500-yard row carries the 1000-yard weight.
    let rows = vec![row(&["A", "1000"]), row(&["B", "500"])];
    let points = calculate_point_values(&rows, &names(&["name", "yards"]));
    assert_eq!(points, vec![333, 667]);
}

#[test]
fn test_unparseable_stat_falls_back_to_equal_split() {
    let rows = vec![row(&["A", "n/a"]), row(&["B", "600"]), row(&["C", "400"])];
    let points = calculate_point_values(&rows, &names(&["name", "yards"]));
    assert_eq!(points, vec![333, 333, 333]);
}

#[test]
fn test_negative_stat_falls_back_to_equal_split() {
    let rows = vec![row(&["A", "-5"]), row(&["B", "600"])];
    let points = calculate_point_values(&rows, &names(&["name", "yards"]));
    assert_eq!(points, vec![500, 500]);
}

#[test]
fn test_short_row_falls_back_to_equal_split() {
    let rows = vec![row(&["A", "800"]), row(&["B"])];
    let points = calculate_point_values(&rows, &names(&["name", "yards"]));
    assert_eq!(points, vec![500, 500]);
}

#[test]
fn test_empty_rows_give_no_points() {
    let rows: Vec<Vec<String>> = Vec::new();
    let points = calculate_point_values(&rows, &names(&["name", "yards"]));
    assert!(points.is_empty());
}

#[test]
fn test_fractional_stats_are_compared_exactly() {
    // Ratio stats: 0.6875 vs 0.625 differ by more than the 0.01 tolerance.
    let rows = vec![row(&["A", "0.6875"]), row(&["B", "0.625"])];
    let points = calculate_point_values(&rows, &names(&["name", "comp_pct"]));
    assert!(points[1] > points[0]);
    let sum: u32 = points.iter().sum();
    assert!((sum as i32 - 1000).abs() <= 2);
}

#[test]
fn test_stats_within_tolerance_share_equally() {
    // 4.005 and 4.009 sit within 0.01 of each other.
    let rows = vec![row(&["A", "4.009"]), row(&["B", "4.005"])];
    let points = calculate_point_values(&rows, &names(&["name", "ypc"]));
    assert_eq!(points, vec![500, 500]);
}

#[test]
fn test_single_row_gets_everything() {
    let rows = vec![row(&["A", "123"])];
    let points = calculate_point_values(&rows, &names(&["name", "yards"]));
    assert_eq!(points, vec![1000]);
}

#[test]
fn test_ten_row_board_sums_near_1000() {
    let rows: Vec<Vec<String>> = (1..=10)
        .map(|i| row(&[&format!("P{}", i), &format!("{}", i * 321)]))
        .collect();
    let points = calculate_point_values(&rows, &names(&["name", "yards"]));
    assert_eq!(points.len(), 10);
    let sum: u32 = points.iter().sum();
    assert!((sum as i32 - 1000).abs() <= 5);
    // Stats grow down the list here, so points can only shrink.
    for w in points.windows(2) {
        assert!(w[0] >= w[1]);
    }
}

#[test]
fn test_parse_stat_reads_decimal_text() {
    assert_eq!(know_ball::parse_stat("14643"), Some(14_643_000_000));
    assert_eq!(know_ball::parse_stat("0.6875"), Some(687_500));
    assert_eq!(know_ball::parse_stat("7."), Some(7_000_000));
    assert_eq!(know_ball::parse_stat(".5"), Some(500_000));
    assert_eq!(know_ball::parse_stat("4.4285714285"), Some(4_428_571));
    assert_eq!(know_ball::parse_stat(""), None);
    assert_eq!(know_ball::parse_stat("."), None);
    assert_eq!(know_ball::parse_stat("12a"), None);
    assert_eq!(know_ball::parse_stat("1.2.3"), None);
    assert_eq!(know_ball::parse_stat("-5"), None);
}
