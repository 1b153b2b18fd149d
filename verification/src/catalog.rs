//! The question catalog and the resolver for free-form question codes.
//!
//! Each catalog entry pairs a code such as `last10passers_TEAM` with a
//! description and a [`QuestionKind`]. A user-typed code is resolved by
//! splitting off a trailing team abbreviation, if one is present, and
//! looking the remaining base code up case-insensitively, either verbatim
//! or with a `_team` suffix.

use vstd::prelude::*;

use crate::teams::{is_team_code, team_codes};
use crate::text::{
    chars_eq, chars_of, lower_ascii, string_from_chars, subvec, to_ascii_lower, to_ascii_upper,
    trim_chars, trim_spec, upper_ascii,
};

verus! {

/// The statistical query shapes the engine can pose.
#[derive(Debug, Clone, Copy)]
pub enum QuestionKind {
    RecYdsTeamYearRange,
    RushYdsTeamYearRange,
    PassYdsTeamSinceStart,
    Last10PassersTeam,
    Last10RushersTeam,
    Last10ReceiversTeam,
    Last10IntThrowersTeam,
    Last10TdPassersTeam,
    Last10NonQbPassersTeam,
    Last10MidWrsTeam,
    Last10MidRbsTeam,
    Top10FumblesLostYearRange,
    Top10RushTdYearRange,
    Top10RecTdYearRange,
    Top10PassTdYearRange,
    Top10IntThrownYearRange,
    Top10RushingQbYearRange,
    Top10ReceivingTeYearRange,
    Top10ReceivingRbYearRange,
    Top10RushingWrYearRange,
    Top10ReceptionsYearRange,
    Top10CompPercYear,
    Top10PassYdsYear,
    Top10YpcYear,
    Top10YprYear,
    Top10RushersYear,
    Top10ReceiversYear,
    Top10RushingQbYear,
    Top10ReceivingTeYear,
}

/// A question's description together with its kind.
#[derive(Debug, Clone, Copy)]
pub struct QuestionMeta {
    pub description: &'static str,
    pub kind: QuestionKind,
}

/// One catalog entry: the question code and its metadata.
#[derive(Debug, Clone, Copy)]
pub struct CatalogEntry {
    pub code: &'static str,
    pub meta: QuestionMeta,
}

/// The catalog of all registered questions, in registration order.
pub struct Catalog {
    pub entries: Vec<CatalogEntry>,
}

impl Catalog {
    /// How many questions are registered.
    pub fn len(&self) -> (r: usize)
        ensures
            r == self.entries@.len(),
    {
        self.entries.len()
    }

    /// Whether no question is registered.
    pub fn is_empty(&self) -> (r: bool)
        ensures
            r == (self.entries@.len() == 0),
    {
        self.entries.len() == 0
    }
}

/// A parsed user request: the question kind and the team filter, if the
/// input carried a valid team suffix.
pub struct ParsedRequest {
    pub kind: QuestionKind,
    pub team: Option<String>,
}

/// The code, description, and kind of every catalog entry, in
/// registration order.
pub open spec fn catalog_spec() -> Seq<(Seq<char>, Seq<char>, QuestionKind)> {
    seq![
        ("recyds_yearrange_TEAM"@, "Top 10 receiving yards for a team in a year range"@, QuestionKind::RecYdsTeamYearRange),
        ("rushyds_yearrange_TEAM"@, "Top 10 rushing yards for a team in a year range"@, QuestionKind::RushYdsTeamYearRange),
        ("passyds_TEAM"@, "Top 10 passing yards for a team since the start year"@, QuestionKind::PassYdsTeamSinceStart),
        ("last10passers_TEAM"@, "Last 10 players to attempt at least 10 passes for a team"@, QuestionKind::Last10PassersTeam),
        ("last10rushers_TEAM"@, "Last 10 non-QBs to attempt at least 30 rushes for a team"@, QuestionKind::Last10RushersTeam),
        ("last10receivers_TEAM"@, "Last 10 players to record at least 20 receptions for a team"@, QuestionKind::Last10ReceiversTeam),
        ("last10intthrowers_TEAM"@, "Last 10 players to throw an interception for a team"@, QuestionKind::Last10IntThrowersTeam),
        ("last10tdpassers_TEAM"@, "Last 10 players to throw a passing TD for a team"@, QuestionKind::Last10TdPassersTeam),
        ("last10nonqbp_TEAM"@, "Last 10 non-QBs to attempt a pass for a team"@, QuestionKind::Last10NonQbPassersTeam),
        ("last10midwrs_TEAM"@, "Last 10 WRs (<3000 career rec yards) to score a rec TD for a team"@, QuestionKind::Last10MidWrsTeam),
        ("last10midrbs_TEAM"@, "Last 10 RBs (<3000 career rush yards) to score a rush TD for a team"@, QuestionKind::Last10MidRbsTeam),
        ("top10fumlost_yearrange"@, "Top 10 players with most fumbles lost in a year range"@, QuestionKind::Top10FumblesLostYearRange),
        ("top10rushtd_yearrange"@, "Top 10 players with most rushing TDs in a year range"@, QuestionKind::Top10RushTdYearRange),
        ("top10rectd_yearrange"@, "Top 10 players with most receiving TDs in a year range"@, QuestionKind::Top10RecTdYearRange),
        ("top10passtd_yearrange"@, "Top 10 players with most passing TDs in a year range"@, QuestionKind::Top10PassTdYearRange),
        ("top10intthrown_yearrange"@, "Top 10 players with most interceptions thrown in a year range"@, QuestionKind::Top10IntThrownYearRange),
        ("top10rushingqb_yearrange"@, "Top 10 QBs in rushing yards in a year range"@, QuestionKind::Top10RushingQbYearRange),
        ("top10receivingte_yearrange"@, "Top 10 TEs in receiving yards in a year range"@, QuestionKind::Top10ReceivingTeYearRange),
        ("top10receivingrb_yearrange"@, "Top 10 RBs in receiving yards in a year range"@, QuestionKind::Top10ReceivingRbYearRange),
        ("top10rushingwr_yearrange"@, "Top 10 WRs in rushing yards in a year range"@, QuestionKind::Top10RushingWrYearRange),
        ("top10receptions_yearrange"@, "Top 10 players in receptions in a year range"@, QuestionKind::Top10ReceptionsYearRange),
        ("top10compperc_year"@, "Top 10 QBs in completion percentage in one season"@, QuestionKind::Top10CompPercYear),
        ("top10passyds_year"@, "Top 10 QBs in passing yards in one season"@, QuestionKind::Top10PassYdsYear),
        ("top10ypc_year"@, "Top 10 rushers in yards per carry in one season"@, QuestionKind::Top10YpcYear),
        ("top10ypr_year"@, "Top 10 receivers in yards per reception in one season"@, QuestionKind::Top10YprYear),
        ("top10rushers_year"@, "Top 10 rushers in rushing yards in one season"@, QuestionKind::Top10RushersYear),
        ("top10receivers_year"@, "Top 10 receivers in receiving yards in one season"@, QuestionKind::Top10ReceiversYear),
        ("top10rushingqb_year"@, "Top 10 rushing QBs in one season"@, QuestionKind::Top10RushingQbYear),
        ("top10receivingte_year"@, "Top 10 TEs in receiving yards in one season"@, QuestionKind::Top10ReceivingTeYear),
    ]
}

/// Register one question under `code`.
fn register(m: &mut Vec<CatalogEntry>, code: &'static str, desc: &'static str, kind: QuestionKind)
    ensures
        final(m)@ == old(m)@.push(
            (CatalogEntry { code, meta: QuestionMeta { description: desc, kind } }),
        ),
{
    m.push(CatalogEntry { code, meta: QuestionMeta { description: desc, kind } });
}

/// Build the full question catalog. Its codes and kinds are pinned to
/// `catalog_spec`, entry by entry.
pub fn build_registry() -> (r: Catalog)
    ensures
        r.entries@.len() == catalog_spec().len(),
        forall|i: int|
            0 <= i < catalog_spec().len() ==> (#[trigger] r.entries@[i]).code@ == catalog_spec()[i].0
                && r.entries@[i].meta.description@ == catalog_spec()[i].1
                && r.entries@[i].meta.kind == catalog_spec()[i].2,
{
    let mut m: Vec<CatalogEntry> = Vec::new();

    register(
        &mut m,
        "recyds_yearrange_TEAM",
        "Top 10 receiving yards for a team in a year range",
        QuestionKind::RecYdsTeamYearRange,
    );
    register(
        &mut m,
        "rushyds_yearrange_TEAM",
        "Top 10 rushing yards for a team in a year range",
        QuestionKind::RushYdsTeamYearRange,
    );
    register(
        &mut m,
        "passyds_TEAM",
        "Top 10 passing yards for a team since the start year",
        QuestionKind::PassYdsTeamSinceStart,
    );
    register(
        &mut m,
        "last10passers_TEAM",
        "Last 10 players to attempt at least 10 passes for a team",
        QuestionKind::Last10PassersTeam,
    );
    register(
        &mut m,
        "last10rushers_TEAM",
        "Last 10 non-QBs to attempt at least 30 rushes for a team",
        QuestionKind::Last10RushersTeam,
    );
    register(
        &mut m,
        "last10receivers_TEAM",
        "Last 10 players to record at least 20 receptions for a team",
        QuestionKind::Last10ReceiversTeam,
    );
    register(
        &mut m,
        "last10intthrowers_TEAM",
        "Last 10 players to throw an interception for a team",
        QuestionKind::Last10IntThrowersTeam,
    );
    register(
        &mut m,
        "last10tdpassers_TEAM",
        "Last 10 players to throw a passing TD for a team",
        QuestionKind::Last10TdPassersTeam,
    );
    register(
        &mut m,
        "last10nonqbp_TEAM",
        "Last 10 non-QBs to attempt a pass for a team",
        QuestionKind::Last10NonQbPassersTeam,
    );
    register(
        &mut m,
        "last10midwrs_TEAM",
        "Last 10 WRs (<3000 career rec yards) to score a rec TD for a team",
        QuestionKind::Last10MidWrsTeam,
    );
    register(
        &mut m,
        "last10midrbs_TEAM",
        "Last 10 RBs (<3000 career rush yards) to score a rush TD for a team",
        QuestionKind::Last10MidRbsTeam,
    );
    register(
        &mut m,
        "top10fumlost_yearrange",
        "Top 10 players with most fumbles lost in a year range",
        QuestionKind::Top10FumblesLostYearRange,
    );
    register(
        &mut m,
        "top10rushtd_yearrange",
        "Top 10 players with most rushing TDs in a year range",
        QuestionKind::Top10RushTdYearRange,
    );
    register(
        &mut m,
        "top10rectd_yearrange",
        "Top 10 players with most receiving TDs in a year range",
        QuestionKind::Top10RecTdYearRange,
    );
    register(
        &mut m,
        "top10passtd_yearrange",
        "Top 10 players with most passing TDs in a year range",
        QuestionKind::Top10PassTdYearRange,
    );
    register(
        &mut m,
        "top10intthrown_yearrange",
        "Top 10 players with most interceptions thrown in a year range",
        QuestionKind::Top10IntThrownYearRange,
    );
    register(
        &mut m,
        "top10rushingqb_yearrange",
        "Top 10 QBs in rushing yards in a year range",
        QuestionKind::Top10RushingQbYearRange,
    );
    register(
        &mut m,
        "top10receivingte_yearrange",
        "Top 10 TEs in receiving yards in a year range",
        QuestionKind::Top10ReceivingTeYearRange,
    );
    register(
        &mut m,
        "top10receivingrb_yearrange",
        "Top 10 RBs in receiving yards in a year range",
        QuestionKind::Top10ReceivingRbYearRange,
    );
    register(
        &mut m,
        "top10rushingwr_yearrange",
        "Top 10 WRs in rushing yards in a year range",
        QuestionKind::Top10RushingWrYearRange,
    );
    register(
        &mut m,
        "top10receptions_yearrange",
        "Top 10 players in receptions in a year range",
        QuestionKind::Top10ReceptionsYearRange,
    );
    register(
        &mut m,
        "top10compperc_year",
        "Top 10 QBs in completion percentage in one season",
        QuestionKind::Top10CompPercYear,
    );
    register(
        &mut m,
        "top10passyds_year",
        "Top 10 QBs in passing yards in one season",
        QuestionKind::Top10PassYdsYear,
    );
    register(
        &mut m,
        "top10ypc_year",
        "Top 10 rushers in yards per carry in one season",
        QuestionKind::Top10YpcYear,
    );
    register(
        &mut m,
        "top10ypr_year",
        "Top 10 receivers in yards per reception in one season",
        QuestionKind::Top10YprYear,
    );
    register(
        &mut m,
        "top10rushers_year",
        "Top 10 rushers in rushing yards in one season",
        QuestionKind::Top10RushersYear,
    );
    register(
        &mut m,
        "top10receivers_year",
        "Top 10 receivers in receiving yards in one season",
        QuestionKind::Top10ReceiversYear,
    );
    register(
        &mut m,
        "top10rushingqb_year",
        "Top 10 rushing QBs in one season",
        QuestionKind::Top10RushingQbYear,
    );
    register(
        &mut m,
        "top10receivingte_year",
        "Top 10 TEs in receiving yards in one season",
        QuestionKind::Top10ReceivingTeYear,
    );

    Catalog { entries: m }
}

/// The index of the last `_` in `s`, or -1 when there is none.
pub open spec fn last_underscore(s: Seq<char>) -> int
    decreases s.len(),
{
    if s.len() == 0 {
        -1
    } else if s[s.len() - 1] == '_' {
        s.len() - 1
    } else {
        last_underscore(s.drop_last())
    }
}

/// Whether `e` is the catalog entry a lower-cased base code resolves to:
/// its key equals the base verbatim, or, when a team suffix was present,
/// the base with `_team` appended.
pub open spec fn entry_matches(e: CatalogEntry, base_lower: Seq<char>, has_team: bool) -> bool {
    lower_ascii(e.code@) == base_lower || (has_team && lower_ascii(e.code@) == base_lower
        + "_team"@)
}

/// The index of the first entry that matches, or `None`.
pub open spec fn find_entry(
    entries: Seq<CatalogEntry>,
    base_lower: Seq<char>,
    has_team: bool,
) -> Option<int>
    decreases entries.len(),
{
    if entries.len() == 0 {
        None
    } else if entry_matches(entries[0], base_lower, has_team) {
        Some(0)
    } else {
        match find_entry(entries.drop_first(), base_lower, has_team) {
            Some(i) => Some(i + 1),
            None => None,
        }
    }
}

/// What `parse_query` resolves `input` to against `entries`: the question
/// kind, and the upper-cased team code when the final `_`-separated token
/// is a valid team abbreviation.
pub open spec fn spec_parse(input: Seq<char>, entries: Seq<CatalogEntry>) -> Option<
    (QuestionKind, Option<Seq<char>>),
> {
    let raw = trim_spec(input);
    let li = last_underscore(raw);
    let tok = upper_ascii(raw.skip(li + 1));
    let has_team = team_codes().contains(tok);
    let base = if has_team {
        if li >= 0 {
            raw.take(li)
        } else {
            Seq::empty()
        }
    } else {
        raw
    };
    match find_entry(entries, lower_ascii(base), has_team) {
        Some(k) => Some(
            (
                entries[k].meta.kind,
                if has_team {
                    Some(tok)
                } else {
                    None
                },
            ),
        ),
        None => None,
    }
}

/// Characterize `last_underscore` by its last-index property.
proof fn lemma_last_underscore_at(s: Seq<char>, k: int)
    requires
        0 <= k < s.len(),
        s[k] == '_',
        forall|j: int| k < j < s.len() ==> s[j] != '_',
    ensures
        last_underscore(s) == k,
    decreases s.len(),
{
    if k == s.len() - 1 {
    } else {
        lemma_last_underscore_at(s.drop_last(), k);
    }
}

/// A string without `_` has no last underscore.
proof fn lemma_last_underscore_none(s: Seq<char>)
    requires
        forall|j: int| 0 <= j < s.len() ==> s[j] != '_',
    ensures
        last_underscore(s) == -1,
    decreases s.len(),
{
    if s.len() > 0 {
        lemma_last_underscore_none(s.drop_last());
    }
}

/// Characterize `find_entry` as the least matching index.
proof fn lemma_find_entry_at(
    entries: Seq<CatalogEntry>,
    base_lower: Seq<char>,
    has_team: bool,
    k: int,
)
    requires
        0 <= k < entries.len(),
        entry_matches(entries[k], base_lower, has_team),
        forall|j: int| 0 <= j < k ==> !entry_matches(entries[j], base_lower, has_team),
    ensures
        find_entry(entries, base_lower, has_team) == Some(k),
    decreases entries.len(),
{
    if k == 0 {
    } else {
        assert forall|j: int| 0 <= j < k - 1 implies !entry_matches(
            entries.drop_first()[j],
            base_lower,
            has_team,
        ) by {
            assert(entries.drop_first()[j] == entries[j + 1]);
        }
        assert(entries.drop_first()[k - 1] == entries[k]);
        lemma_find_entry_at(entries.drop_first(), base_lower, has_team, k - 1);
    }
}

/// With no matching entry, `find_entry` yields `None`.
proof fn lemma_find_entry_none(entries: Seq<CatalogEntry>, base_lower: Seq<char>, has_team: bool)
    requires
        forall|j: int| 0 <= j < entries.len() ==> !entry_matches(entries[j], base_lower, has_team),
    ensures
        find_entry(entries, base_lower, has_team) is None,
    decreases entries.len(),
{
    if entries.len() > 0 {
        assert forall|j: int| 0 <= j < entries.drop_first().len() implies !entry_matches(
            entries.drop_first()[j],
            base_lower,
            has_team,
        ) by {
            assert(entries.drop_first()[j] == entries[j + 1]);
        }
        lemma_find_entry_none(entries.drop_first(), base_lower, has_team);
    }
}

/// Resolve a user-typed question code against the catalog.
///
/// The input is trimmed; when its final `_`-separated token upper-cases to
/// a valid team code, that token becomes the team filter and the rest is
/// the base code, otherwise the whole trimmed input is the base code. The
/// base code is looked up lower-cased, either verbatim or (only with a
/// team) suffixed `_team`; the first matching entry in catalog order wins.
#[verifier::loop_isolation(false)]
pub fn parse_query(input: &str, registry: &Catalog) -> (r: Option<ParsedRequest>)
    ensures
        r is Some <==> spec_parse(input@, registry.entries@) is Some,
        r is Some ==> spec_parse(input@, registry.entries@) == Some(
            (r.unwrap().kind, r.unwrap().team.deep_view()),
        ),
{
    let chars = chars_of(input);
    let raw = trim_chars(&chars);
    let n = raw.len();

    // Locate the last underscore of the trimmed input.
    let mut li: usize = 0;
    let mut found = false;
    let mut q: usize = 0;
    while q < n
        invariant
            q <= n,
            n == raw@.len(),
            found ==> li < q && raw@[li as int] == '_' && forall|j: int|
                li < j < q ==> raw@[j] != '_',
            !found ==> forall|j: int| 0 <= j < q ==> raw@[j] != '_',
        decreases n - q,
    {
        if raw[q] == '_' {
            li = q;
            found = true;
        }
        q = q + 1;
    }
    proof {
        if found {
            lemma_last_underscore_at(raw@, li as int);
        } else {
            lemma_last_underscore_none(raw@);
        }
        assert(last_underscore(raw@) == if found {
            li as int
        } else {
            -1
        });
    }

    // The final token, upper-cased, and whether it is a team code.
    let tok_start = if found {
        li + 1
    } else {
        0
    };
    let tok_raw = subvec(&raw, tok_start, n);
    let tok = to_ascii_upper(&tok_raw);
    proof {
        assert(raw@.subrange(tok_start as int, n as int) =~= raw@.skip(
            last_underscore(raw@) + 1,
        ));
    }
    let has_team = is_team_code(&tok);

    // The base code: everything before the team suffix, or the whole input.
    let base = if has_team {
        if found {
            subvec(&raw, 0, li)
        } else {
            let empty: Vec<char> = Vec::new();
            empty
        }
    } else {
        subvec(&raw, 0, n)
    };
    proof {
        if has_team {
            if found {
                assert(raw@.subrange(0, li as int) =~= raw@.take(last_underscore(raw@)));
            } else {
                assert(base@ =~= Seq::<char>::empty());
            }
        } else {
            assert(raw@.subrange(0, n as int) =~= raw@);
        }
    }
    let base_lower = to_ascii_lower(&base);

    // The `_team`-suffixed candidate, used only when a team was detected.
    let mut cand2 = subvec(&base_lower, 0, base_lower.len());
    cand2.push('_');
    cand2.push('t');
    cand2.push('e');
    cand2.push('a');
    cand2.push('m');
    proof {
        reveal_strlit("_team");
        assert(base_lower@.subrange(0, base_lower@.len() as int) =~= base_lower@);
        assert(cand2@ =~= base_lower@ + "_team"@);
    }

    // Scan the catalog for the first entry matching either candidate.
    let ghost entries = registry.entries@;
    let m = registry.entries.len();
    let mut idx: usize = 0;
    while idx < m
        invariant
            idx <= m,
            m == entries.len(),
            forall|j: int| 0 <= j < idx ==> !entry_matches(entries[j], base_lower@, has_team),
        decreases m - idx,
    {
        let e = &registry.entries[idx];
        let key = chars_of(e.code);
        let key_lower = to_ascii_lower(&key);
        let hit = if chars_eq(&key_lower, &base_lower) {
            true
        } else if has_team {
            chars_eq(&key_lower, &cand2)
        } else {
            false
        };
        if hit {
            proof {
                assert(entry_matches(entries[idx as int], base_lower@, has_team));
                lemma_find_entry_at(entries, base_lower@, has_team, idx as int);
            }
            let team = if has_team {
                Some(string_from_chars(&tok))
            } else {
                None
            };
            return Some(ParsedRequest { kind: e.meta.kind, team });
        }
        proof {
            assert(!entry_matches(entries[idx as int], base_lower@, has_team));
        }
        idx = idx + 1;
    }
    proof {
        lemma_find_entry_none(entries, base_lower@, has_team);
    }
    None
}

/// Pick one catalog entry at random; `None` only for an empty catalog.
pub fn choose_random_question(registry: &Catalog) -> (r: Option<(&'static str, QuestionMeta)>)
    ensures
        r is Some <==> registry.entries@.len() > 0,
        r is Some ==> exists|i: int|
            0 <= i < registry.entries@.len() && (#[trigger] registry.entries@[i]).code@
                == r.unwrap().0@ && registry.entries@[i].meta == r.unwrap().1,
{
    let m = registry.entries.len();
    if m == 0 {
        return None;
    }
    let idx = crate::random::rand_below(m as u64) as usize;
    let e = &registry.entries[idx];
    proof {
        assert(registry.entries@[idx as int].code@ == e.code@);
    }
    Some((e.code, e.meta))
}

} // verus!
