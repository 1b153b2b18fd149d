//! The fixed list of 32 team abbreviations and the season range of the
//! dataset.

use vstd::prelude::*;

use crate::text::chars_eq_str;

verus! {

/// First season covered by the dataset.
pub const START_YEAR: i32 = 2000;

/// Last season covered by the dataset.
pub const END_YEAR: i32 = 2024;

/// The 32 team abbreviations, in fixed order.
pub open spec fn team_codes() -> Seq<Seq<char>> {
    seq![
        "BUF"@,
        "MIA"@,
        "NE"@,
        "NYJ"@,
        "BAL"@,
        "CIN"@,
        "CLE"@,
        "PIT"@,
        "HOU"@,
        "IND"@,
        "JAX"@,
        "TEN"@,
        "DEN"@,
        "KC"@,
        "LV"@,
        "LAC"@,
        "DAL"@,
        "NYG"@,
        "PHI"@,
        "WAS"@,
        "CHI"@,
        "DET"@,
        "GB"@,
        "MIN"@,
        "ATL"@,
        "CAR"@,
        "NO"@,
        "TB"@,
        "ARI"@,
        "LAR"@,
        "SF"@,
        "SEA"@,
    ]
}

/// The team abbreviations as string slices, in the order of `team_codes`.
pub fn team_list() -> (r: Vec<&'static str>)
    ensures
        r@.len() == team_codes().len(),
        forall|i: int| 0 <= i < r@.len() ==> #[trigger] r@[i]@ == team_codes()[i],
{
    let mut v: Vec<&'static str> = Vec::new();
    v.push("BUF");
    v.push("MIA");
    v.push("NE");
    v.push("NYJ");
    v.push("BAL");
    v.push("CIN");
    v.push("CLE");
    v.push("PIT");
    v.push("HOU");
    v.push("IND");
    v.push("JAX");
    v.push("TEN");
    v.push("DEN");
    v.push("KC");
    v.push("LV");
    v.push("LAC");
    v.push("DAL");
    v.push("NYG");
    v.push("PHI");
    v.push("WAS");
    v.push("CHI");
    v.push("DET");
    v.push("GB");
    v.push("MIN");
    v.push("ATL");
    v.push("CAR");
    v.push("NO");
    v.push("TB");
    v.push("ARI");
    v.push("LAR");
    v.push("SF");
    v.push("SEA");
    v
}

/// Whether the characters of `v` are exactly one of the 32 team codes.
pub fn is_team_code(v: &Vec<char>) -> (r: bool)
    ensures
        r == team_codes().contains(v@),
{
    let teams = team_list();
    let mut i: usize = 0;
    while i < teams.len()
        invariant
            i <= teams@.len(),
            teams@.len() == team_codes().len(),
            forall|j: int| 0 <= j < teams@.len() ==> #[trigger] teams@[j]@ == team_codes()[j],
            forall|j: int| 0 <= j < i ==> team_codes()[j] != v@,
        decreases teams@.len() - i,
    {
        if chars_eq_str(v, teams[i]) {
            return true;
        }
        i = i + 1;
    }
    false
}

} // verus!
