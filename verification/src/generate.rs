//! Prompt and query generation for every question kind.
//!
//! Each kind renders to a natural-language prompt and a query string over
//! the `seasons` and `players` tables. The parameters — a team, a single
//! season, or a season range — are either caller-supplied or drawn at
//! random; rendering itself is deterministic and pinned, character by
//! character, to the spec-level templates below.

use vstd::prelude::*;

use crate::catalog::QuestionKind;
use crate::random::{random_team, random_year, random_year_range};
use crate::teams::{team_codes, END_YEAR, START_YEAR};
use crate::text::dec_digits;

verus! {

/// `s.season BETWEEN {s} AND {e}`.
pub open spec fn between_cond(s: int, e: int) -> Seq<char> {
    "s.season BETWEEN "@ + dec_digits(s) + " AND "@ + dec_digits(e)
}

/// `s.season >= {start}`.
pub open spec fn since_cond(start: int) -> Seq<char> {
    "s.season >= "@ + dec_digits(start)
}

/// A per-team career sum: select each player's total of `col`, filtered by
/// `cond`, largest first.
pub open spec fn sql_team_sum(
    col: Seq<char>,
    alias: Seq<char>,
    team: Seq<char>,
    cond: Seq<char>,
) -> Seq<char> {
    "SELECT p.name, s.team_abbr, SUM(s."@ + col + ") AS "@ + alias
        + "\nFROM seasons s\nJOIN players p ON p.player_id = s.player_id\nWHERE s.team_abbr = '"@
        + team + "' AND "@ + cond + "\nGROUP BY s.player_id\nORDER BY "@ + alias
        + " DESC\nLIMIT 10;"@
}

/// The latest qualifying season per player for one team, newest first:
/// `pred_bare` is the qualifying predicate without a table prefix,
/// `pred_s` the same predicate on the `s` alias.
pub open spec fn sql_last10(
    col: Seq<char>,
    pred_bare: Seq<char>,
    pred_s: Seq<char>,
    team: Seq<char>,
) -> Seq<char> {
    "WITH latest AS (\nSELECT s.player_id, s.team_abbr, s.season, s."@ + col
        + "\nFROM seasons s\nJOIN (\nSELECT player_id, MAX(season) AS max_season\nFROM seasons\nWHERE team_abbr = '"@
        + team + "' AND "@ + pred_bare
        + "\nGROUP BY player_id\n) m ON m.player_id = s.player_id AND m.max_season = s.season\nWHERE s.team_abbr = '"@
        + team + "' AND "@ + pred_s + "\n)\nSELECT p.name, latest.team_abbr, latest.season, latest."@
        + col
        + "\nFROM latest\nJOIN players p ON p.player_id = latest.player_id\nORDER BY latest.season DESC\nLIMIT 10;"@
}

/// The latest qualifying season per player for one team, restricted to a
/// position and a mid-sized career total of `sum_col`.
pub open spec fn sql_mid(
    sum_col: Seq<char>,
    career_alias: Seq<char>,
    pos: Seq<char>,
    td_col: Seq<char>,
    team: Seq<char>,
) -> Seq<char> {
    "WITH career AS (\nSELECT player_id, SUM("@ + sum_col + ") AS "@ + career_alias
        + "\nFROM seasons\nGROUP BY player_id\n),\nlatest AS (\nSELECT s.player_id, s.team_abbr, s.season, s."@
        + td_col + ", career."@ + career_alias
        + "\nFROM seasons s\nJOIN career ON career.player_id = s.player_id\nJOIN (\nSELECT s2.player_id, MAX(s2.season) AS max_season\nFROM seasons s2\nJOIN career c2 ON c2.player_id = s2.player_id\nWHERE s2.team_abbr = '"@
        + team + "'\nAND s2.position = '"@ + pos + "'\nAND c2."@ + career_alias + " < 3000\nAND c2."@
        + career_alias + " > 200\nAND s2."@ + td_col
        + " > 0\nGROUP BY s2.player_id\n) m ON m.player_id = s.player_id AND m.max_season = s.season\nWHERE s.team_abbr = '"@
        + team + "'\nAND s.position = '"@ + pos + "'\nAND career."@ + career_alias
        + " < 3000\nAND career."@ + career_alias + " > 200\nAND s."@ + td_col
        + " > 0\n)\nSELECT p.name, latest.team_abbr, latest.season, latest."@ + td_col + ", latest."@
        + career_alias
        + "\nFROM latest\nJOIN players p ON p.player_id = latest.player_id\nORDER BY latest.season DESC\nLIMIT 10;"@
}

/// A league-wide sum of `col` over a season range, with each player's most
/// recent team of the range alongside; `sub_extra` and `outer_extra` carry
/// an optional position filter for the subquery and the outer query.
pub open spec fn sql_range_top(
    col: Seq<char>,
    alias: Seq<char>,
    sub_extra: Seq<char>,
    outer_extra: Seq<char>,
    s: int,
    e: int,
) -> Seq<char> {
    "SELECT p.name,\n(SELECT s2.team_abbr\nFROM seasons s2\nWHERE s2.player_id = s.player_id\nAND s2.season BETWEEN "@
        + dec_digits(s) + " AND "@ + dec_digits(e) + "\n"@ + sub_extra
        + "ORDER BY s2.season DESC\nLIMIT 1) AS last_team,\nSUM(s."@ + col + ") AS "@ + alias
        + "\nFROM seasons s\nJOIN players p ON p.player_id = s.player_id\nWHERE s.season BETWEEN "@
        + dec_digits(s) + " AND "@ + dec_digits(e) + outer_extra
        + "\nGROUP BY s.player_id\nORDER BY "@ + alias + " DESC\nLIMIT 10;"@
}

/// A single-season leaderboard on `col`, optionally position-filtered.
pub open spec fn sql_year_top(col: Seq<char>, pos_extra: Seq<char>, year: int) -> Seq<char> {
    "SELECT p.name, s.team_abbr, s.season, s."@ + col
        + "\nFROM seasons s\nJOIN players p ON p.player_id = s.player_id\nWHERE s.season = "@
        + dec_digits(year) + pos_extra + "\nORDER BY s."@ + col + " DESC\nLIMIT 10;"@
}

/// A single-season ratio leaderboard: `mid` lists the extra select
/// columns and the ratio expression, `tail` the volume guard, `order` the
/// ratio alias ordered by.
pub open spec fn sql_season_ratio(
    mid: Seq<char>,
    tail: Seq<char>,
    order: Seq<char>,
    year: int,
) -> Seq<char> {
    "SELECT p.name,\ns.team_abbr,\ns.season,\n"@ + mid
        + "\nFROM seasons s\nJOIN players p ON p.player_id = s.player_id\nWHERE s.season = "@
        + dec_digits(year) + tail + "\nORDER BY "@ + order + " DESC\nLIMIT 10;"@
}

/// `{prefix}{team}{suffix}`.
pub open spec fn prompt_team(prefix: Seq<char>, team: Seq<char>, suffix: Seq<char>) -> Seq<char> {
    prefix + team + suffix
}

/// `{prefix}{team} between {s}–{e}.`
pub open spec fn prompt_team_range(prefix: Seq<char>, team: Seq<char>, s: int, e: int) -> Seq<
    char,
> {
    prefix + team + " between "@ + dec_digits(s) + "–"@ + dec_digits(e) + "."@
}

/// `{prefix}{s}–{e}.`
pub open spec fn prompt_range(prefix: Seq<char>, s: int, e: int) -> Seq<char> {
    prefix + dec_digits(s) + "–"@ + dec_digits(e) + "."@
}

/// `{prefix}{year}{suffix}`.
pub open spec fn prompt_year(prefix: Seq<char>, year: int, suffix: Seq<char>) -> Seq<char> {
    prefix + dec_digits(year) + suffix
}

/// The prompt of `kind` under the given parameters; kinds that ignore a
/// parameter leave it out of their text.
pub open spec fn prompt_spec(
    kind: QuestionKind,
    team: Seq<char>,
    year: int,
    s: int,
    e: int,
) -> Seq<char> {
    match kind {
        QuestionKind::RecYdsTeamYearRange => prompt_team_range(
            "Top 10 players in receiving yards for "@,
            team,
            s,
            e,
        ),
        QuestionKind::RushYdsTeamYearRange => prompt_team_range(
            "Top 10 players in rushing yards for "@,
            team,
            s,
            e,
        ),
        QuestionKind::PassYdsTeamSinceStart => prompt_team(
            "Top 10 players in passing yards for "@,
            team,
            " since "@ + dec_digits(START_YEAR as int) + " (inclusive)."@,
        ),
        QuestionKind::Last10PassersTeam => prompt_team(
            "Last 10 player-seasons with \u{2265}10 pass attempts for "@,
            team,
            " (most recent first)."@,
        ),
        QuestionKind::Last10RushersTeam => prompt_team(
            "Last 10 non-QB player-seasons with \u{2265}30 rush attempts for "@,
            team,
            " (most recent first)."@,
        ),
        QuestionKind::Last10ReceiversTeam => prompt_team(
            "Last 10 player-seasons with \u{2265}20 receptions for "@,
            team,
            " (most recent first)."@,
        ),
        QuestionKind::Last10IntThrowersTeam => prompt_team(
            "Last 10 player-seasons with \u{2265}1 interception thrown for "@,
            team,
            " (most recent first)."@,
        ),
        QuestionKind::Last10TdPassersTeam => prompt_team(
            "Last 10 player-seasons with \u{2265}3 passing TD for "@,
            team,
            " (most recent first)."@,
        ),
        QuestionKind::Last10NonQbPassersTeam => prompt_team(
            "Last 10 non-QB player-seasons with \u{2265}1 pass attempt for "@,
            team,
            " (most recent first)."@,
        ),
        QuestionKind::Last10MidWrsTeam => prompt_team(
            "Last 10 WRs (200 < career rec yards < 3000) to score a receiving TD for "@,
            team,
            " (most recent first)."@,
        ),
        QuestionKind::Last10MidRbsTeam => prompt_team(
            "Last 10 RBs (200 < career rush yards < 3000) to score a rushing TD for "@,
            team,
            " (most recent first)."@,
        ),
        QuestionKind::Top10FumblesLostYearRange => prompt_range(
            "Top 10 players with most fumbles lost between "@,
            s,
            e,
        ),
        QuestionKind::Top10RushTdYearRange => prompt_range(
            "Top 10 players with most rushing TDs between "@,
            s,
            e,
        ),
        QuestionKind::Top10RecTdYearRange => prompt_range(
            "Top 10 players with most receiving TDs between "@,
            s,
            e,
        ),
        QuestionKind::Top10PassTdYearRange => prompt_range(
            "Top 10 players with most passing TDs between "@,
            s,
            e,
        ),
        QuestionKind::Top10IntThrownYearRange => prompt_range(
            "Top 10 players with most interceptions thrown between "@,
            s,
            e,
        ),
        QuestionKind::Top10RushingQbYearRange => prompt_range(
            "Top 10 QBs in rushing yards between "@,
            s,
            e,
        ),
        QuestionKind::Top10ReceivingTeYearRange => prompt_range(
            "Top 10 TEs in receiving yards between "@,
            s,
            e,
        ),
        QuestionKind::Top10ReceivingRbYearRange => prompt_range(
            "Top 10 RBs in receiving yards between "@,
            s,
            e,
        ),
        QuestionKind::Top10RushingWrYearRange => prompt_range(
            "Top 10 WRs in rushing yards between "@,
            s,
            e,
        ),
        QuestionKind::Top10ReceptionsYearRange => prompt_range(
            "Top 10 players in total receptions between "@,
            s,
            e,
        ),
        QuestionKind::Top10CompPercYear => prompt_year(
            "Top 10 QBs in completion percentage in "@,
            year,
            " (min 100 attempts)."@,
        ),
        QuestionKind::Top10PassYdsYear => prompt_year(
            "Top 10 QBs in passing yards in "@,
            year,
            "."@,
        ),
        QuestionKind::Top10YpcYear => prompt_year(
            "Top 10 players in yards per carry in "@,
            year,
            " (min 50 rush attempts)."@,
        ),
        QuestionKind::Top10YprYear => prompt_year(
            "Top 10 players in yards per reception in "@,
            year,
            " (min 50 targets)."@,
        ),
        QuestionKind::Top10RushersYear => prompt_year(
            "Top 10 rushers in rushing yards in "@,
            year,
            "."@,
        ),
        QuestionKind::Top10ReceiversYear => prompt_year(
            "Top 10 pass catchers in receiving yards in "@,
            year,
            "."@,
        ),
        QuestionKind::Top10RushingQbYear => prompt_year(
            "Top 10 QBs in rushing yards in "@,
            year,
            "."@,
        ),
        QuestionKind::Top10ReceivingTeYear => prompt_year(
            "Top 10 TEs in receiving yards in "@,
            year,
            "."@,
        ),
    }
}

/// The query of `kind` under the given parameters.
pub open spec fn sql_spec(kind: QuestionKind, team: Seq<char>, year: int, s: int, e: int) -> Seq<
    char,
> {
    match kind {
        QuestionKind::RecYdsTeamYearRange => sql_team_sum(
            "receiving_yards"@,
            "rec_yards"@,
            team,
            between_cond(s, e),
        ),
        QuestionKind::RushYdsTeamYearRange => sql_team_sum(
            "rushing_yards"@,
            "rush_yards"@,
            team,
            between_cond(s, e),
        ),
        QuestionKind::PassYdsTeamSinceStart => sql_team_sum(
            "passing_yards"@,
            "pass_yards"@,
            team,
            since_cond(START_YEAR as int),
        ),
        QuestionKind::Last10PassersTeam => sql_last10(
            "attempts"@,
            "attempts >= 10"@,
            "s.attempts >= 10"@,
            team,
        ),
        QuestionKind::Last10RushersTeam => sql_last10(
            "rushing_attempts"@,
            "position <> 'QB' AND rushing_attempts >= 30"@,
            "s.position <> 'QB' AND s.rushing_attempts >= 30"@,
            team,
        ),
        QuestionKind::Last10ReceiversTeam => sql_last10(
            "receptions"@,
            "receptions >= 20"@,
            "s.receptions >= 20"@,
            team,
        ),
        QuestionKind::Last10IntThrowersTeam => sql_last10(
            "interceptions"@,
            "interceptions > 0"@,
            "s.interceptions > 0"@,
            team,
        ),
        QuestionKind::Last10TdPassersTeam => sql_last10(
            "passing_tds"@,
            "passing_tds > 2"@,
            "s.passing_tds > 2"@,
            team,
        ),
        QuestionKind::Last10NonQbPassersTeam => sql_last10(
            "attempts"@,
            "position <> 'QB' AND attempts > 0"@,
            "s.position <> 'QB' AND s.attempts > 0"@,
            team,
        ),
        QuestionKind::Last10MidWrsTeam => sql_mid(
            "receiving_yards"@,
            "career_rec_yds"@,
            "WR"@,
            "receiving_tds"@,
            team,
        ),
        QuestionKind::Last10MidRbsTeam => sql_mid(
            "rushing_yards"@,
            "career_rush_yds"@,
            "RB"@,
            "rushing_tds"@,
            team,
        ),
        QuestionKind::Top10FumblesLostYearRange => sql_range_top(
            "fumbles_lost"@,
            "fum_lost"@,
            ""@,
            ""@,
            s,
            e,
        ),
        QuestionKind::Top10RushTdYearRange => sql_range_top(
            "rushing_tds"@,
            "rush_tds"@,
            ""@,
            ""@,
            s,
            e,
        ),
        QuestionKind::Top10RecTdYearRange => sql_range_top(
            "receiving_tds"@,
            "rec_tds"@,
            ""@,
            ""@,
            s,
            e,
        ),
        QuestionKind::Top10PassTdYearRange => sql_range_top(
            "passing_tds"@,
            "pass_tds"@,
            ""@,
            ""@,
            s,
            e,
        ),
        QuestionKind::Top10IntThrownYearRange => sql_range_top(
            "interceptions"@,
            "ints"@,
            ""@,
            ""@,
            s,
            e,
        ),
        QuestionKind::Top10RushingQbYearRange => sql_range_top(
            "rushing_yards"@,
            "rush_yards"@,
            "AND s2.position = 'QB'\n"@,
            " AND s.position = 'QB'"@,
            s,
            e,
        ),
        QuestionKind::Top10ReceivingTeYearRange => sql_range_top(
            "receiving_yards"@,
            "rec_yards"@,
            "AND s2.position = 'TE'\n"@,
            " AND s.position = 'TE'"@,
            s,
            e,
        ),
        QuestionKind::Top10ReceivingRbYearRange => sql_range_top(
            "receiving_yards"@,
            "rec_yards"@,
            "AND s2.position = 'RB'\n"@,
            " AND s.position = 'RB'"@,
            s,
            e,
        ),
        QuestionKind::Top10RushingWrYearRange => sql_range_top(
            "rushing_yards"@,
            "rush_yards"@,
            "AND s2.position = 'WR'\n"@,
            " AND s.position = 'WR'"@,
            s,
            e,
        ),
        QuestionKind::Top10ReceptionsYearRange => sql_range_top(
            "receptions"@,
            "recs"@,
            ""@,
            ""@,
            s,
            e,
        ),
        QuestionKind::Top10CompPercYear => sql_season_ratio(
            "s.completions,\ns.attempts,\n1.0 * s.completions / s.attempts AS comp_pct"@,
            " AND s.position = 'QB' AND s.attempts >= 100"@,
            "comp_pct"@,
            year,
        ),
        QuestionKind::Top10PassYdsYear => sql_year_top(
            "passing_yards"@,
            " AND s.position = 'QB'"@,
            year,
        ),
        QuestionKind::Top10YpcYear => sql_season_ratio(
            "s.rushing_attempts,\ns.rushing_yards,\n1.0 * s.rushing_yards / s.rushing_attempts AS ypc"@,
            " AND s.rushing_attempts >= 50"@,
            "ypc"@,
            year,
        ),
        QuestionKind::Top10YprYear => sql_season_ratio(
            "s.targets,\ns.receptions,\ns.receiving_yards,\n1.0 * s.receiving_yards / s.receptions AS ypr"@,
            " AND s.targets >= 50 AND s.receptions > 0"@,
            "ypr"@,
            year,
        ),
        QuestionKind::Top10RushersYear => sql_year_top("rushing_yards"@, ""@, year),
        QuestionKind::Top10ReceiversYear => sql_year_top("receiving_yards"@, ""@, year),
        QuestionKind::Top10RushingQbYear => sql_year_top(
            "rushing_yards"@,
            " AND s.position = 'QB'"@,
            year,
        ),
        QuestionKind::Top10ReceivingTeYear => sql_year_top(
            "receiving_yards"@,
            " AND s.position = 'TE'"@,
            year,
        ),
    }
}

/// `{prefix}{team}{suffix}`.
fn build_prompt_team(prefix: &str, team: &str, suffix: &str) -> (r: String)
    ensures
        r@ == prompt_team(prefix@, team@, suffix@),
{
    let mut out = String::new();
    out.append(prefix);
    out.append(team);
    out.append(suffix);
    proof {
        assert(out@ =~= prompt_team(prefix@, team@, suffix@));
    }
    out
}

/// `{prefix}{team} between {s}–{e}.`
fn build_prompt_team_range(prefix: &str, team: &str, s: u32, e: u32) -> (r: String)
    ensures
        r@ == prompt_team_range(prefix@, team@, s as int, e as int),
{
    let mut out = String::new();
    out.append(prefix);
    out.append(team);
    out.append(" between ");
    let sd = crate::text::u32_to_string(s);
    out.append(sd.as_str());
    out.append("\u{2013}");
    let ed = crate::text::u32_to_string(e);
    out.append(ed.as_str());
    out.append(".");
    proof {
        assert(out@ =~= prompt_team_range(prefix@, team@, s as int, e as int));
    }
    out
}

/// `{prefix}{s}–{e}.`
fn build_prompt_range(prefix: &str, s: u32, e: u32) -> (r: String)
    ensures
        r@ == prompt_range(prefix@, s as int, e as int),
{
    let mut out = String::new();
    out.append(prefix);
    let sd = crate::text::u32_to_string(s);
    out.append(sd.as_str());
    out.append("\u{2013}");
    let ed = crate::text::u32_to_string(e);
    out.append(ed.as_str());
    out.append(".");
    proof {
        assert(out@ =~= prompt_range(prefix@, s as int, e as int));
    }
    out
}

/// `{prefix}{year}{suffix}`.
fn build_prompt_year(prefix: &str, year: u32, suffix: &str) -> (r: String)
    ensures
        r@ == prompt_year(prefix@, year as int, suffix@),
{
    let mut out = String::new();
    out.append(prefix);
    let yd = crate::text::u32_to_string(year);
    out.append(yd.as_str());
    out.append(suffix);
    proof {
        assert(out@ =~= prompt_year(prefix@, year as int, suffix@));
    }
    out
}

/// `s.season BETWEEN {s} AND {e}`.
fn build_between(s: u32, e: u32) -> (r: String)
    ensures
        r@ == between_cond(s as int, e as int),
{
    let mut out = String::new();
    out.append("s.season BETWEEN ");
    let sd = crate::text::u32_to_string(s);
    out.append(sd.as_str());
    out.append(" AND ");
    let ed = crate::text::u32_to_string(e);
    out.append(ed.as_str());
    proof {
        assert(out@ =~= between_cond(s as int, e as int));
    }
    out
}

/// `s.season >= {start}`.
fn build_since(start: u32) -> (r: String)
    ensures
        r@ == since_cond(start as int),
{
    let mut out = String::new();
    out.append("s.season >= ");
    let sd = crate::text::u32_to_string(start);
    out.append(sd.as_str());
    proof {
        assert(out@ =~= since_cond(start as int));
    }
    out
}

/// The per-team career-sum query.
fn build_team_sum(col: &str, alias: &str, team: &str, cond: &str) -> (r: String)
    ensures
        r@ == sql_team_sum(col@, alias@, team@, cond@),
{
    let mut out = String::new();
    out.append("SELECT p.name, s.team_abbr, SUM(s.");
    out.append(col);
    out.append(") AS ");
    out.append(alias);
    out.append("\nFROM seasons s\nJOIN players p ON p.player_id = s.player_id\nWHERE s.team_abbr = '");
    out.append(team);
    out.append("' AND ");
    out.append(cond);
    out.append("\nGROUP BY s.player_id\nORDER BY ");
    out.append(alias);
    out.append(" DESC\nLIMIT 10;");
    proof {
        assert(out@ =~= sql_team_sum(col@, alias@, team@, cond@));
    }
    out
}

/// The latest-qualifying-season-per-player query.
fn build_last10(col: &str, pred_bare: &str, pred_s: &str, team: &str) -> (r: String)
    ensures
        r@ == sql_last10(col@, pred_bare@, pred_s@, team@),
{
    let mut out = String::new();
    out.append("WITH latest AS (\nSELECT s.player_id, s.team_abbr, s.season, s.");
    out.append(col);
    out.append(
        "\nFROM seasons s\nJOIN (\nSELECT player_id, MAX(season) AS max_season\nFROM seasons\nWHERE team_abbr = '",
    );
    out.append(team);
    out.append("' AND ");
    out.append(pred_bare);
    out.append(
        "\nGROUP BY player_id\n) m ON m.player_id = s.player_id AND m.max_season = s.season\nWHERE s.team_abbr = '",
    );
    out.append(team);
    out.append("' AND ");
    out.append(pred_s);
    out.append("\n)\nSELECT p.name, latest.team_abbr, latest.season, latest.");
    out.append(col);
    out.append(
        "\nFROM latest\nJOIN players p ON p.player_id = latest.player_id\nORDER BY latest.season DESC\nLIMIT 10;",
    );
    proof {
        assert(out@ =~= sql_last10(col@, pred_bare@, pred_s@, team@));
    }
    out
}

/// The mid-career latest-qualifying-season query.
fn build_mid(sum_col: &str, career_alias: &str, pos: &str, td_col: &str, team: &str) -> (r: String)
    ensures
        r@ == sql_mid(sum_col@, career_alias@, pos@, td_col@, team@),
{
    let mut out = String::new();
    out.append("WITH career AS (\nSELECT player_id, SUM(");
    out.append(sum_col);
    out.append(") AS ");
    out.append(career_alias);
    out.append(
        "\nFROM seasons\nGROUP BY player_id\n),\nlatest AS (\nSELECT s.player_id, s.team_abbr, s.season, s.",
    );
    out.append(td_col);
    out.append(", career.");
    out.append(career_alias);
    out.append(
        "\nFROM seasons s\nJOIN career ON career.player_id = s.player_id\nJOIN (\nSELECT s2.player_id, MAX(s2.season) AS max_season\nFROM seasons s2\nJOIN career c2 ON c2.player_id = s2.player_id\nWHERE s2.team_abbr = '",
    );
    out.append(team);
    out.append("'\nAND s2.position = '");
    out.append(pos);
    out.append("'\nAND c2.");
    out.append(career_alias);
    out.append(" < 3000\nAND c2.");
    out.append(career_alias);
    out.append(" > 200\nAND s2.");
    out.append(td_col);
    out.append(
        " > 0\nGROUP BY s2.player_id\n) m ON m.player_id = s.player_id AND m.max_season = s.season\nWHERE s.team_abbr = '",
    );
    out.append(team);
    out.append("'\nAND s.position = '");
    out.append(pos);
    out.append("'\nAND career.");
    out.append(career_alias);
    out.append(" < 3000\nAND career.");
    out.append(career_alias);
    out.append(" > 200\nAND s.");
    out.append(td_col);
    out.append(" > 0\n)\nSELECT p.name, latest.team_abbr, latest.season, latest.");
    out.append(td_col);
    out.append(", latest.");
    out.append(career_alias);
    out.append(
        "\nFROM latest\nJOIN players p ON p.player_id = latest.player_id\nORDER BY latest.season DESC\nLIMIT 10;",
    );
    proof {
        assert(out@ =~= sql_mid(sum_col@, career_alias@, pos@, td_col@, team@));
    }
    out
}

/// The league-wide season-range sum query.
fn build_range_top(col: &str, alias: &str, sub_extra: &str, outer_extra: &str, s: u32, e: u32) -> (r:
    String)
    ensures
        r@ == sql_range_top(col@, alias@, sub_extra@, outer_extra@, s as int, e as int),
{
    let sd = crate::text::u32_to_string(s);
    let ed = crate::text::u32_to_string(e);
    let mut out = String::new();
    out.append(
        "SELECT p.name,\n(SELECT s2.team_abbr\nFROM seasons s2\nWHERE s2.player_id = s.player_id\nAND s2.season BETWEEN ",
    );
    out.append(sd.as_str());
    out.append(" AND ");
    out.append(ed.as_str());
    out.append("\n");
    out.append(sub_extra);
    out.append("ORDER BY s2.season DESC\nLIMIT 1) AS last_team,\nSUM(s.");
    out.append(col);
    out.append(") AS ");
    out.append(alias);
    out.append(
        "\nFROM seasons s\nJOIN players p ON p.player_id = s.player_id\nWHERE s.season BETWEEN ",
    );
    out.append(sd.as_str());
    out.append(" AND ");
    out.append(ed.as_str());
    out.append(outer_extra);
    out.append("\nGROUP BY s.player_id\nORDER BY ");
    out.append(alias);
    out.append(" DESC\nLIMIT 10;");
    proof {
        assert(out@ =~= sql_range_top(col@, alias@, sub_extra@, outer_extra@, s as int, e as int));
    }
    out
}

/// The single-season leaderboard query.
fn build_year_top(col: &str, pos_extra: &str, year: u32) -> (r: String)
    ensures
        r@ == sql_year_top(col@, pos_extra@, year as int),
{
    let yd = crate::text::u32_to_string(year);
    let mut out = String::new();
    out.append("SELECT p.name, s.team_abbr, s.season, s.");
    out.append(col);
    out.append("\nFROM seasons s\nJOIN players p ON p.player_id = s.player_id\nWHERE s.season = ");
    out.append(yd.as_str());
    out.append(pos_extra);
    out.append("\nORDER BY s.");
    out.append(col);
    out.append(" DESC\nLIMIT 10;");
    proof {
        assert(out@ =~= sql_year_top(col@, pos_extra@, year as int));
    }
    out
}

/// The single-season ratio leaderboard query.
fn build_season_ratio(mid: &str, tail: &str, order: &str, year: u32) -> (r: String)
    ensures
        r@ == sql_season_ratio(mid@, tail@, order@, year as int),
{
    let yd = crate::text::u32_to_string(year);
    let mut out = String::new();
    out.append("SELECT p.name,\ns.team_abbr,\ns.season,\n");
    out.append(mid);
    out.append("\nFROM seasons s\nJOIN players p ON p.player_id = s.player_id\nWHERE s.season = ");
    out.append(yd.as_str());
    out.append(tail);
    out.append("\nORDER BY ");
    out.append(order);
    out.append(" DESC\nLIMIT 10;");
    proof {
        assert(out@ =~= sql_season_ratio(mid@, tail@, order@, year as int));
    }
    out
}

/// Render `kind` deterministically with the given parameters: the prompt
/// and the query, pinned to the spec templates.
pub fn render_question(kind: QuestionKind, team: &str, year: i32, start: i32, end: i32) -> (r: (
    String,
    String,
))
    requires
        START_YEAR <= year <= END_YEAR,
        START_YEAR <= start <= END_YEAR,
        START_YEAR <= end <= END_YEAR,
    ensures
        r.0@ == prompt_spec(kind, team@, year as int, start as int, end as int),
        r.1@ == sql_spec(kind, team@, year as int, start as int, end as int),
{
    let y = year as u32;
    let s = start as u32;
    let e = end as u32;
    match kind {
        QuestionKind::RecYdsTeamYearRange => {
            let q = build_prompt_team_range("Top 10 players in receiving yards for ", team, s, e);
            let cond = build_between(s, e);
            let sql = build_team_sum("receiving_yards", "rec_yards", team, cond.as_str());
            (q, sql)
        },
        QuestionKind::RushYdsTeamYearRange => {
            let q = build_prompt_team_range("Top 10 players in rushing yards for ", team, s, e);
            let cond = build_between(s, e);
            let sql = build_team_sum("rushing_yards", "rush_yards", team, cond.as_str());
            (q, sql)
        },
        QuestionKind::PassYdsTeamSinceStart => {
            let mut suffix = String::new();
            suffix.append(" since ");
            let sd = crate::text::u32_to_string(START_YEAR as u32);
            suffix.append(sd.as_str());
            suffix.append(" (inclusive).");
            let q = build_prompt_team("Top 10 players in passing yards for ", team, suffix.as_str());
            proof {
                assert(suffix@ =~= " since "@ + dec_digits(START_YEAR as int) + " (inclusive)."@);
            }
            let cond = build_since(START_YEAR as u32);
            let sql = build_team_sum("passing_yards", "pass_yards", team, cond.as_str());
            (q, sql)
        },
        QuestionKind::Last10PassersTeam => {
            let q = build_prompt_team(
                "Last 10 player-seasons with \u{2265}10 pass attempts for ",
                team,
                " (most recent first).",
            );
            let sql = build_last10("attempts", "attempts >= 10", "s.attempts >= 10", team);
            (q, sql)
        },
        QuestionKind::Last10RushersTeam => {
            let q = build_prompt_team(
                "Last 10 non-QB player-seasons with \u{2265}30 rush attempts for ",
                team,
                " (most recent first).",
            );
            let sql = build_last10(
                "rushing_attempts",
                "position <> 'QB' AND rushing_attempts >= 30",
                "s.position <> 'QB' AND s.rushing_attempts >= 30",
                team,
            );
            (q, sql)
        },
        QuestionKind::Last10ReceiversTeam => {
            let q = build_prompt_team(
                "Last 10 player-seasons with \u{2265}20 receptions for ",
                team,
                " (most recent first).",
            );
            let sql = build_last10("receptions", "receptions >= 20", "s.receptions >= 20", team);
            (q, sql)
        },
        QuestionKind::Last10IntThrowersTeam => {
            let q = build_prompt_team(
                "Last 10 player-seasons with \u{2265}1 interception thrown for ",
                team,
                " (most recent first).",
            );
            let sql = build_last10(
                "interceptions",
                "interceptions > 0",
                "s.interceptions > 0",
                team,
            );
            (q, sql)
        },
        QuestionKind::Last10TdPassersTeam => {
            let q = build_prompt_team(
                "Last 10 player-seasons with \u{2265}3 passing TD for ",
                team,
                " (most recent first).",
            );
            let sql = build_last10("passing_tds", "passing_tds > 2", "s.passing_tds > 2", team);
            (q, sql)
        },
        QuestionKind::Last10NonQbPassersTeam => {
            let q = build_prompt_team(
                "Last 10 non-QB player-seasons with \u{2265}1 pass attempt for ",
                team,
                " (most recent first).",
            );
            let sql = build_last10(
                "attempts",
                "position <> 'QB' AND attempts > 0",
                "s.position <> 'QB' AND s.attempts > 0",
                team,
            );
            (q, sql)
        },
        QuestionKind::Last10MidWrsTeam => {
            let q = build_prompt_team(
                "Last 10 WRs (200 < career rec yards < 3000) to score a receiving TD for ",
                team,
                " (most recent first).",
            );
            let sql = build_mid("receiving_yards", "career_rec_yds", "WR", "receiving_tds", team);
            (q, sql)
        },
        QuestionKind::Last10MidRbsTeam => {
            let q = build_prompt_team(
                "Last 10 RBs (200 < career rush yards < 3000) to score a rushing TD for ",
                team,
                " (most recent first).",
            );
            let sql = build_mid("rushing_yards", "career_rush_yds", "RB", "rushing_tds", team);
            (q, sql)
        },
        QuestionKind::Top10FumblesLostYearRange => {
            let q = build_prompt_range("Top 10 players with most fumbles lost between ", s, e);
            let sql = build_range_top("fumbles_lost", "fum_lost", "", "", s, e);
            (q, sql)
        },
        QuestionKind::Top10RushTdYearRange => {
            let q = build_prompt_range("Top 10 players with most rushing TDs between ", s, e);
            let sql = build_range_top("rushing_tds", "rush_tds", "", "", s, e);
            (q, sql)
        },
        QuestionKind::Top10RecTdYearRange => {
            let q = build_prompt_range("Top 10 players with most receiving TDs between ", s, e);
            let sql = build_range_top("receiving_tds", "rec_tds", "", "", s, e);
            (q, sql)
        },
        QuestionKind::Top10PassTdYearRange => {
            let q = build_prompt_range("Top 10 players with most passing TDs between ", s, e);
            let sql = build_range_top("passing_tds", "pass_tds", "", "", s, e);
            (q, sql)
        },
        QuestionKind::Top10IntThrownYearRange => {
            let q = build_prompt_range(
                "Top 10 players with most interceptions thrown between ",
                s,
                e,
            );
            let sql = build_range_top("interceptions", "ints", "", "", s, e);
            (q, sql)
        },
        QuestionKind::Top10RushingQbYearRange => {
            let q = build_prompt_range("Top 10 QBs in rushing yards between ", s, e);
            let sql = build_range_top(
                "rushing_yards",
                "rush_yards",
                "AND s2.position = 'QB'\n",
                " AND s.position = 'QB'",
                s,
                e,
            );
            (q, sql)
        },
        QuestionKind::Top10ReceivingTeYearRange => {
            let q = build_prompt_range("Top 10 TEs in receiving yards between ", s, e);
            let sql = build_range_top(
                "receiving_yards",
                "rec_yards",
                "AND s2.position = 'TE'\n",
                " AND s.position = 'TE'",
                s,
                e,
            );
            (q, sql)
        },
        QuestionKind::Top10ReceivingRbYearRange => {
            let q = build_prompt_range("Top 10 RBs in receiving yards between ", s, e);
            let sql = build_range_top(
                "receiving_yards",
                "rec_yards",
                "AND s2.position = 'RB'\n",
                " AND s.position = 'RB'",
                s,
                e,
            );
            (q, sql)
        },
        QuestionKind::Top10RushingWrYearRange => {
            let q = build_prompt_range("Top 10 WRs in rushing yards between ", s, e);
            let sql = build_range_top(
                "rushing_yards",
                "rush_yards",
                "AND s2.position = 'WR'\n",
                " AND s.position = 'WR'",
                s,
                e,
            );
            (q, sql)
        },
        QuestionKind::Top10ReceptionsYearRange => {
            let q = build_prompt_range("Top 10 players in total receptions between ", s, e);
            let sql = build_range_top("receptions", "recs", "", "", s, e);
            (q, sql)
        },
        QuestionKind::Top10CompPercYear => {
            let q = build_prompt_year(
                "Top 10 QBs in completion percentage in ",
                y,
                " (min 100 attempts).",
            );
            let sql = build_season_ratio(
                "s.completions,\ns.attempts,\n1.0 * s.completions / s.attempts AS comp_pct",
                " AND s.position = 'QB' AND s.attempts >= 100",
                "comp_pct",
                y,
            );
            (q, sql)
        },
        QuestionKind::Top10PassYdsYear => {
            let q = build_prompt_year("Top 10 QBs in passing yards in ", y, ".");
            let sql = build_year_top("passing_yards", " AND s.position = 'QB'", y);
            (q, sql)
        },
        QuestionKind::Top10YpcYear => {
            let q = build_prompt_year(
                "Top 10 players in yards per carry in ",
                y,
                " (min 50 rush attempts).",
            );
            let sql = build_season_ratio(
                "s.rushing_attempts,\ns.rushing_yards,\n1.0 * s.rushing_yards / s.rushing_attempts AS ypc",
                " AND s.rushing_attempts >= 50",
                "ypc",
                y,
            );
            (q, sql)
        },
        QuestionKind::Top10YprYear => {
            let q = build_prompt_year(
                "Top 10 players in yards per reception in ",
                y,
                " (min 50 targets).",
            );
            let sql = build_season_ratio(
                "s.targets,\ns.receptions,\ns.receiving_yards,\n1.0 * s.receiving_yards / s.receptions AS ypr",
                " AND s.targets >= 50 AND s.receptions > 0",
                "ypr",
                y,
            );
            (q, sql)
        },
        QuestionKind::Top10RushersYear => {
            let q = build_prompt_year("Top 10 rushers in rushing yards in ", y, ".");
            let sql = build_year_top("rushing_yards", "", y);
            (q, sql)
        },
        QuestionKind::Top10ReceiversYear => {
            let q = build_prompt_year("Top 10 pass catchers in receiving yards in ", y, ".");
            let sql = build_year_top("receiving_yards", "", y);
            (q, sql)
        },
        QuestionKind::Top10RushingQbYear => {
            let q = build_prompt_year("Top 10 QBs in rushing yards in ", y, ".");
            let sql = build_year_top("rushing_yards", " AND s.position = 'QB'", y);
            (q, sql)
        },
        QuestionKind::Top10ReceivingTeYear => {
            let q = build_prompt_year("Top 10 TEs in receiving yards in ", y, ".");
            let sql = build_year_top("receiving_yards", " AND s.position = 'TE'", y);
            (q, sql)
        },
    }
}

/// Generate the prompt and query for `kind`: the team is the caller's
/// override or a random one, and the season parameters are drawn fresh,
/// all within the dataset's bounds.
pub fn generate_sql_for_kind(kind: QuestionKind, team_override: Option<&str>) -> (r: (
    String,
    String,
))
    ensures
        exists|t: Seq<char>, y: int, s: int, e: int|
            {
                &&& match team_override {
                    Some(tv) => t == tv@,
                    None => team_codes().contains(t),
                }
                &&& START_YEAR <= y <= END_YEAR
                &&& START_YEAR <= s < e <= END_YEAR
                &&& r.0@ == #[trigger] prompt_spec(kind, t, y, s, e)
                &&& r.1@ == sql_spec(kind, t, y, s, e)
            },
{
    let team: String = match team_override {
        Some(t) => String::from_str(t),
        None => String::from_str(random_team()),
    };
    let year = random_year();
    let range = random_year_range();
    let r = render_question(kind, team.as_str(), year, range.0, range.1);
    proof {
        assert({
            &&& match team_override {
                Some(tv) => team@ == tv@,
                None => team_codes().contains(team@),
            }
            &&& START_YEAR <= (year as int) <= END_YEAR
            &&& START_YEAR <= (range.0 as int) < (range.1 as int) <= END_YEAR
            &&& r.0@ == prompt_spec(kind, team@, year as int, range.0 as int, range.1 as int)
            &&& r.1@ == sql_spec(kind, team@, year as int, range.0 as int, range.1 as int)
        });
    }
    r
}

} // verus!
