//! Tests for the catalog, the code resolver, and question generation.

use know_ball::{
    build_registry, choose_random_question, generate_sql_for_kind, parse_query, random_year,
    random_year_range, team_list, QuestionKind, END_YEAR, START_YEAR,
};

#[test]
fn test_random_year_in_range() {
    for _ in 0..100 {
        let year = random_year();
        assert!(year >= START_YEAR && year <= END_YEAR);
    }
}

#[test]
fn test_random_year_range_valid() {
    for _ in 0..100 {
        let (start, end) = random_year_range();
        assert!(start >= START_YEAR);
        assert!(end <= END_YEAR);
        assert!(end > start); // At least 2 years
        assert!(end >= start + 1);
    }
}

#[test]
fn test_parse_query_with_team() {
    let registry = build_registry();
    let result = parse_query("last10passers_PIT", &registry);

    assert!(result.is_some());
    let parsed = result.unwrap();
    assert_eq!(parsed.team, Some("PIT".to_string()));
}

#[test]
fn test_parse_query_without_team() {
    let registry = build_registry();
    let result = parse_query("top10fumlost_yearrange", &registry);

    assert!(result.is_some());
    let parsed = result.unwrap();
    assert_eq!(parsed.team, None);
}

#[test]
fn test_parse_query_invalid_team() {
    let registry = build_registry();
    // XYZ is not a valid team
    let result = parse_query("last10passers_XYZ", &registry);

    assert!(result.is_none());
}

#[test]
fn test_parse_query_case_insensitive() {
    let registry = build_registry();
    let result = parse_query("LAST10PASSERS_pit", &registry);

    assert!(result.is_some());
    let parsed = result.unwrap();
    assert_eq!(parsed.team, Some("PIT".to_string()));
}

#[test]
fn test_build_registry_not_empty() {
    let registry = build_registry();
    assert!(!registry.is_empty());
    assert!(registry.len() > 20); // Should have lots of questions
}

#[test]
fn test_all_teams_valid() {
    // Make sure all teams in the team list are 2-3 chars
    for team in team_list().iter() {
        assert!(team.len() >= 2 && team.len() <= 3);
        assert!(team.chars().all(|c| c.is_ascii_uppercase()));
    }
}

#[test]
fn test_generate_sql_contains_team() {
    let (question, sql) = generate_sql_for_kind(QuestionKind::Last10PassersTeam, Some("IND"));

    assert!(sql.contains("IND"));
    assert!(question.contains("IND"));
}

#[test]
fn test_choose_random_question_returns_valid() {
    let registry = build_registry();
    let result = choose_random_question(&registry);
    assert!(result.is_some());
}

#[test]
fn test_sql_has_order_by_and_limit() {
    // All queries should have ORDER BY and LIMIT
    let (_, sql) = generate_sql_for_kind(QuestionKind::Top10PassYdsYear, None);
    assert!(sql.contains("ORDER BY"));
    assert!(sql.contains("LIMIT 10"));
}

#[test]
fn test_year_range_questions_have_between() {
    let (_, sql) = generate_sql_for_kind(QuestionKind::Top10RushTdYearRange, None);
    assert!(sql.contains("BETWEEN"));
}

#[test]
fn test_parse_query_whole_input_as_code() {
    // A plain catalog code with no team suffix resolves even though its
    // final token is not a team.
    let registry = build_registry();
    let result = parse_query("top10passyds_year", &registry);
    assert!(result.is_some());
    assert!(result.unwrap().team.is_none());
}

#[test]
fn test_parse_query_trims_whitespace() {
    let registry = build_registry();
    let result = parse_query("  last10passers_PIT \n", &registry);
    assert!(result.is_some());
    assert_eq!(result.unwrap().team, Some("PIT".to_string()));
}

#[test]
fn test_parse_query_empty_input() {
    let registry = build_registry();
    assert!(parse_query("", &registry).is_none());
    assert!(parse_query("   ", &registry).is_none());
}

#[test]
fn test_parse_query_bare_team_code() {
    // A lone team code has an empty base and matches nothing.
    let registry = build_registry();
    assert!(parse_query("PIT", &registry).is_none());
}

#[test]
fn test_choose_random_question_empty_catalog() {
    let empty = know_ball::Catalog { entries: Vec::new() };
    assert!(choose_random_question(&empty).is_none());
}

#[test]
fn test_choose_random_question_is_catalog_entry() {
    let registry = build_registry();
    let (code, _meta) = choose_random_question(&registry).unwrap();
    assert!(registry.entries.iter().any(|e| e.code == code));
}

#[test]
fn test_render_question_exact_text() {
    let (question, sql) =
        know_ball::render_question(QuestionKind::Top10PassYdsYear, "", 2024, 2000, 2001);
    assert_eq!(question, "Top 10 QBs in passing yards in 2024.");
    assert_eq!(
        sql,
        "SELECT p.name, s.team_abbr, s.season, s.passing_yards\nFROM seasons s\nJOIN players p ON p.player_id = s.player_id\nWHERE s.season = 2024 AND s.position = 'QB'\nORDER BY s.passing_yards DESC\nLIMIT 10;"
    );
}

#[test]
fn test_render_question_team_range_exact_text() {
    let (question, sql) =
        know_ball::render_question(QuestionKind::RecYdsTeamYearRange, "PIT", 2000, 2005, 2010);
    assert_eq!(
        question,
        "Top 10 players in receiving yards for PIT between 2005\u{2013}2010."
    );
    assert_eq!(
        sql,
        "SELECT p.name, s.team_abbr, SUM(s.receiving_yards) AS rec_yards\nFROM seasons s\nJOIN players p ON p.player_id = s.player_id\nWHERE s.team_abbr = 'PIT' AND s.season BETWEEN 2005 AND 2010\nGROUP BY s.player_id\nORDER BY rec_yards DESC\nLIMIT 10;"
    );
}

#[test]
fn test_generate_sql_random_team_is_valid() {
    let (_, sql) = generate_sql_for_kind(QuestionKind::Last10ReceiversTeam, None);
    let teams = team_list();
    assert!(teams.iter().any(|t| sql.contains(t)));
}

#[test]
fn test_mid_career_sql_mentions_career_bounds() {
    let (_, sql) = generate_sql_for_kind(QuestionKind::Last10MidWrsTeam, Some("GB"));
    assert!(sql.contains("career_rec_yds"));
    assert!(sql.contains("< 3000"));
    assert!(sql.contains("> 200"));
    assert!(sql.contains("'WR'"));
}

#[test]
fn test_ratio_sql_guards_denominator() {
    let (_, sql) = generate_sql_for_kind(QuestionKind::Top10CompPercYear, None);
    assert!(sql.contains("s.attempts >= 100"));
    let (_, sql) = generate_sql_for_kind(QuestionKind::Top10YpcYear, None);
    assert!(sql.contains("s.rushing_attempts >= 50"));
    let (_, sql) = generate_sql_for_kind(QuestionKind::Top10YprYear, None);
    assert!(sql.contains("s.targets >= 50"));
}
