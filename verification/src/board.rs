//! The interactive trivia round: a board of result rows whose answer
//! names stay hidden until guessed.
//!
//! A guess is matched against the answer field of each row by
//! bidirectional substring containment of the lower-cased texts, so a
//! surname matches the stored "First Last" and vice versa. A guess that
//! matches an already-guessed row is a duplicate and costs nothing; a
//! first match in row order is marked guessed and earns that row's
//! precomputed points; a miss is a strike. The round is over once every
//! row is guessed (won) or the third strike falls (lost); revealing is the
//! caller's exit and changes no state.

use vstd::prelude::*;

use crate::score::{calculate_point_values, spec_points, sum_points};
use crate::text::{
    chars_eq_str, chars_of, contains_chars, contains_seq, eq_ignore_ascii, lower_ascii, lower_of,
    lowercase, string_from_chars, to_ascii_lower, trim_chars, trim_spec,
};

verus! {

/// What a finished round reports: the points earned and the row count.
pub struct TriviaResult {
    pub score: u32,
    pub total: usize,
}

/// The phase of a round.
#[derive(Debug, Clone, Copy, PartialEq, Eq, Structural)]
pub enum RoundState {
    Playing,
    Won,
    Lost,
}

/// What one guess did to the board.
#[derive(Debug, Clone, Copy, PartialEq, Eq, Structural)]
pub enum GuessOutcome {
    /// The guess matched a row that was already guessed; nothing changes.
    Duplicate,
    /// The guess matched the unguessed row at this index, worth these points.
    Correct(usize, u32),
    /// The guess matched nothing; one more strike.
    Strike,
}

/// The mathematical state of a board.
pub ghost struct BoardModel {
    pub rows: Seq<Seq<Seq<char>>>,
    pub guessed: Seq<bool>,
    pub points: Seq<u32>,
    pub correct: int,
    pub strikes: int,
    pub score: int,
}

/// Whether `guess` matches `answer`: one of the lower-cased texts
/// contains the other.
pub open spec fn spec_guess_match(guess: Seq<char>, answer: Seq<char>) -> bool {
    contains_seq(lower_of(answer), lower_of(guess)) || contains_seq(
        lower_of(guess),
        lower_of(answer),
    )
}

/// How many entries of `s` are true.
pub open spec fn count_true(s: Seq<bool>) -> int
    decreases s.len(),
{
    if s.len() == 0 {
        0
    } else {
        count_true(s.drop_last()) + if s.last() {
            1int
        } else {
            0int
        }
    }
}

/// The points of the guessed rows.
pub open spec fn score_sum(points: Seq<u32>, guessed: Seq<bool>) -> int
    decreases points.len(),
{
    if points.len() == 0 {
        0
    } else {
        score_sum(points.drop_last(), guessed.drop_last()) + if guessed[points.len() - 1] {
            points.last() as int
        } else {
            0int
        }
    }
}

impl BoardModel {
    /// Whether `guess` matches the answer field of row `i`.
    pub open spec fn row_matches(self, guess: Seq<char>, i: int) -> bool {
        spec_guess_match(guess, self.rows[i][0])
    }

    /// Whether `guess` matches some row that was already guessed.
    pub open spec fn duplicate(self, guess: Seq<char>) -> bool {
        exists|i: int|
            0 <= i < self.rows.len() && self.guessed[i] && #[trigger] self.row_matches(guess, i)
    }

    /// The first unguessed row from `from` on that `guess` matches.
    pub open spec fn first_match_from(self, guess: Seq<char>, from: int) -> Option<int>
        decreases self.rows.len() - from,
    {
        if from >= self.rows.len() {
            None
        } else if !self.guessed[from] && self.row_matches(guess, from) {
            Some(from)
        } else {
            self.first_match_from(guess, from + 1)
        }
    }

    /// The board after one guess: unchanged for a duplicate; the first
    /// matching row marked guessed, counted, and scored; else one strike.
    pub open spec fn step(self, guess: Seq<char>) -> BoardModel {
        if self.duplicate(guess) {
            self
        } else {
            match self.first_match_from(guess, 0) {
                Some(i) => BoardModel {
                    guessed: self.guessed.update(i, true),
                    correct: self.correct + 1,
                    score: self.score + self.points[i],
                    ..self
                },
                None => BoardModel { strikes: self.strikes + 1, ..self },
            }
        }
    }

    /// The phase: won once every row is guessed, lost at three strikes.
    pub open spec fn state(self) -> RoundState {
        if self.correct == self.rows.len() {
            RoundState::Won
        } else if self.strikes >= 3 {
            RoundState::Lost
        } else {
            RoundState::Playing
        }
    }

    /// Internal consistency of a board.
    pub open spec fn wf(self) -> bool {
        &&& 1 <= self.rows.len() <= 0xffff_ffff
        &&& self.guessed.len() == self.rows.len()
        &&& self.points.len() == self.rows.len()
        &&& self.points == spec_points(self.rows)
        &&& forall|i: int| 0 <= i < self.rows.len() ==> #[trigger] self.rows[i].len() >= 1
        &&& self.correct == count_true(self.guessed)
        &&& 0 <= self.strikes <= 3
        &&& self.score == score_sum(self.points, self.guessed)
    }
}

/// A round in progress: the result rows, which are guessed, their point
/// values, and the running counters.
pub struct TriviaBoard {
    pub rows: Vec<Vec<String>>,
    pub guessed: Vec<bool>,
    pub points: Vec<u32>,
    pub correct: usize,
    pub strikes: u32,
    pub score: u32,
}

impl View for TriviaBoard {
    type V = BoardModel;

    open spec fn view(&self) -> BoardModel {
        BoardModel {
            rows: self.rows.deep_view(),
            guessed: self.guessed@,
            points: self.points@,
            correct: self.correct as int,
            strikes: self.strikes as int,
            score: self.score as int,
        }
    }
}

/// Counting true entries never leaves `0 ..= len`.
proof fn lemma_count_true_bound(s: Seq<bool>)
    ensures
        0 <= count_true(s) <= s.len(),
    decreases s.len(),
{
    if s.len() > 0 {
        lemma_count_true_bound(s.drop_last());
    }
}

/// Marking one unguessed entry adds exactly one to the count.
proof fn lemma_count_true_update(s: Seq<bool>, i: int)
    requires
        0 <= i < s.len(),
        !s[i],
    ensures
        count_true(s.update(i, true)) == count_true(s) + 1,
    decreases s.len(),
{
    if i == s.len() - 1 {
        assert(s.update(i, true).drop_last() =~= s.drop_last());
    } else {
        assert(s.update(i, true).drop_last() =~= s.drop_last().update(i, true));
        lemma_count_true_update(s.drop_last(), i);
    }
}

/// A full count means every entry is true.
proof fn lemma_count_true_full(s: Seq<bool>)
    requires
        count_true(s) == s.len(),
    ensures
        forall|i: int| 0 <= i < s.len() ==> s[i],
    decreases s.len(),
{
    if s.len() > 0 {
        lemma_count_true_bound(s.drop_last());
        assert(s.last());
        lemma_count_true_full(s.drop_last());
        assert forall|i: int| 0 <= i < s.len() implies s[i] by {
            if i < s.len() - 1 {
                assert(s.drop_last()[i] == s[i]);
            }
        }
    }
}

/// Marking one unguessed row adds exactly its points to the score.
proof fn lemma_score_sum_update(points: Seq<u32>, guessed: Seq<bool>, i: int)
    requires
        points.len() == guessed.len(),
        0 <= i < guessed.len(),
        !guessed[i],
    ensures
        score_sum(points, guessed.update(i, true)) == score_sum(points, guessed) + points[i],
    decreases points.len(),
{
    if i == points.len() - 1 {
        assert(guessed.update(i, true).drop_last() =~= guessed.drop_last());
    } else {
        assert(guessed.update(i, true).drop_last() =~= guessed.drop_last().update(i, true));
        lemma_score_sum_update(points.drop_last(), guessed.drop_last(), i);
    }
}

/// The score never exceeds the sum of all point values.
proof fn lemma_score_sum_le_total(points: Seq<u32>, guessed: Seq<bool>)
    requires
        points.len() == guessed.len(),
    ensures
        0 <= score_sum(points, guessed) <= sum_points(points),
    decreases points.len(),
{
    assert(Seq::new(points.len(), |i: int| points[i] as int).len() == points.len());
    if points.len() == 0 {
    } else {
        lemma_score_sum_le_total(points.drop_last(), guessed.drop_last());
        assert(Seq::new(points.len(), |i: int| points[i] as int).drop_last() =~= Seq::new(
            points.drop_last().len(),
            |i: int| points.drop_last()[i] as int,
        ));
    }
}

/// With every row guessed, the score is the sum of all point values.
proof fn lemma_score_sum_full(points: Seq<u32>, guessed: Seq<bool>)
    requires
        points.len() == guessed.len(),
        forall|i: int| 0 <= i < guessed.len() ==> guessed[i],
    ensures
        score_sum(points, guessed) == sum_points(points),
    decreases points.len(),
{
    if points.len() > 0 {
        lemma_score_sum_full(points.drop_last(), guessed.drop_last());
        assert(Seq::new(points.len(), |i: int| points[i] as int).drop_last() =~= Seq::new(
            points.drop_last().len(),
            |i: int| points.drop_last()[i] as int,
        ));
    } else {
        assert(Seq::new(0, |i: int| points[i] as int) =~= Seq::<int>::empty());
    }
}

/// Characterize `first_match_from` at a concrete hit.
proof fn lemma_first_match_at(m: BoardModel, guess: Seq<char>, from: int, k: int)
    requires
        0 <= from <= k < m.rows.len(),
        !m.guessed[k] && m.row_matches(guess, k),
        forall|j: int| from <= j < k ==> !(!m.guessed[j] && #[trigger] m.row_matches(guess, j)),
    ensures
        m.first_match_from(guess, from) == Some(k),
    decreases k - from,
{
    if from < k {
        lemma_first_match_at(m, guess, from + 1, k);
    }
}

/// With no unguessed match from `from` on, `first_match_from` is `None`.
proof fn lemma_first_match_none(m: BoardModel, guess: Seq<char>, from: int)
    requires
        forall|j: int|
            from <= j < m.rows.len() ==> !(!m.guessed[j] && #[trigger] m.row_matches(guess, j)),
    ensures
        m.first_match_from(guess, from) is None,
    decreases m.rows.len() - from,
{
    if from < m.rows.len() {
        lemma_first_match_none(m, guess, from + 1);
    }
}

/// Whether `guess` matches `answer`: either lower-cased text contains the
/// other.
pub fn match_guess(guess: &str, answer: &str) -> (r: bool)
    ensures
        r == spec_guess_match(guess@, answer@),
{
    let gl = lowercase(guess);
    let al = lowercase(answer);
    let gv = chars_of(gl.as_str());
    let av = chars_of(al.as_str());
    if contains_chars(&av, &gv) {
        true
    } else {
        contains_chars(&gv, &av)
    }
}

impl TriviaBoard {
    /// Set up a round from the fetched result rows: compute the point
    /// values and hide every answer.
    pub fn new(rows: Vec<Vec<String>>, column_names: &Vec<String>) -> (b: TriviaBoard)
        requires
            1 <= rows.deep_view().len() <= 0xffff_ffff,
            forall|i: int| 0 <= i < rows.deep_view().len() ==> rows.deep_view()[i].len() >= 1,
        ensures
            b@.wf(),
            b@.rows == rows.deep_view(),
            b@.correct == 0,
            b@.strikes == 0,
            b@.score == 0,
            forall|i: int| 0 <= i < b@.guessed.len() ==> !b@.guessed[i],
    {
        let n = rows.len();
        let points = calculate_point_values(&rows, column_names);
        let mut guessed: Vec<bool> = Vec::new();
        let mut i: usize = 0;
        while i < n
            invariant
                i <= n,
                guessed@.len() == i,
                forall|j: int| 0 <= j < i ==> !guessed@[j],
            decreases n - i,
        {
            guessed.push(false);
            i = i + 1;
        }
        proof {
            lemma_count_all_false(guessed@);
            lemma_score_all_false(points@, guessed@);
            crate::score::lemma_points_sum_range(rows.deep_view());
        }
        TriviaBoard { rows, guessed, points, correct: 0, strikes: 0, score: 0 }
    }

    /// The phase of the round.
    pub fn state(&self) -> (r: RoundState)
        ensures
            r == self@.state(),
    {
        if self.correct == self.rows.len() {
            RoundState::Won
        } else if self.strikes >= 3 {
            RoundState::Lost
        } else {
            RoundState::Playing
        }
    }

    /// Apply one guess: report a duplicate, credit the first matching
    /// row, or charge a strike, exactly as `BoardModel::step` says.
    #[verifier::loop_isolation(false)]
    pub fn process_guess(&mut self, guess: &str) -> (out: GuessOutcome)
        requires
            old(self)@.wf(),
            old(self)@.state() is Playing,
        ensures
            final(self)@ == old(self)@.step(guess@),
            final(self)@.wf(),
            match out {
                GuessOutcome::Duplicate => old(self)@.duplicate(guess@),
                GuessOutcome::Correct(i, p) => !old(self)@.duplicate(guess@) && old(
                    self,
                )@.first_match_from(guess@, 0) == Some(i as int) && p == old(self)@.points[i as int],
                GuessOutcome::Strike => !old(self)@.duplicate(guess@) && old(
                    self,
                )@.first_match_from(guess@, 0) is None,
            },
    {
        let ghost m = self@;
        let n = self.rows.len();

        // Does the guess match a row that was already guessed?
        let mut i: usize = 0;
        let mut dup = false;
        while i < n && !dup
            invariant
                i <= n,
                self@ == m,
                !dup ==> forall|k: int|
                    0 <= k < i ==> !(m.guessed[k] && #[trigger] m.row_matches(guess@, k)),
                dup ==> m.duplicate(guess@),
            decreases n - i,
        {
            if self.guessed[i] {
                let row = &self.rows[i];
                proof {
                    assert(m.rows[i as int] == self.rows@[i as int].deep_view());
                    assert(m.rows[i as int][0] == row@[0]@);
                }
                if match_guess(guess, row[0].as_str()) {
                    proof {
                        assert(m.guessed[i as int] && m.row_matches(guess@, i as int));
                    }
                    dup = true;
                }
            }
            i = i + 1;
        }
        if dup {
            return GuessOutcome::Duplicate;
        }
        proof {
            assert(!m.duplicate(guess@));
        }

        // Find the first unguessed matching row.
        i = 0;
        while i < n
            invariant
                i <= n,
                self@ == m,
                forall|k: int|
                    0 <= k < i ==> !(!m.guessed[k] && #[trigger] m.row_matches(guess@, k)),
            decreases n - i,
        {
            if !self.guessed[i] {
                let row = &self.rows[i];
                proof {
                    assert(m.rows[i as int] == self.rows@[i as int].deep_view());
                    assert(m.rows[i as int][0] == row@[0]@);
                }
                if match_guess(guess, row[0].as_str()) {
                    proof {
                        lemma_first_match_at(m, guess@, 0, i as int);
                        lemma_count_true_bound(m.guessed);
                        lemma_count_true_update(m.guessed, i as int);
                        lemma_score_sum_update(m.points, m.guessed, i as int);
                        lemma_score_sum_le_total(m.points, m.guessed.update(i as int, true));
                        crate::score::lemma_points_sum_range(m.rows);
                    }
                    let p = self.points[i];
                    self.guessed.set(i, true);
                    self.correct = self.correct + 1;
                    self.score = self.score + p;
                    return GuessOutcome::Correct(i, p);
                }
            }
            i = i + 1;
        }
        proof {
            lemma_first_match_none(m, guess@, 0);
            assert(old(self)@.strikes < 3);
        }
        self.strikes = self.strikes + 1;
        GuessOutcome::Strike
    }

    /// The rows as they are shown mid-round: the answer field of an
    /// unguessed row is masked by a fixed placeholder, everything else is
    /// visible.
    pub fn display_rows(&self) -> (r: Vec<Vec<String>>)
        requires
            self@.wf(),
        ensures
            r.deep_view().len() == self@.rows.len(),
            forall|i: int|
                0 <= i < self@.rows.len() ==> #[trigger] r.deep_view()[i].len()
                    == self@.rows[i].len(),
            forall|i: int, j: int|
                0 <= i < self@.rows.len() && 0 <= j < self@.rows[i].len()
                    ==> #[trigger] r.deep_view()[i][j] == if j == 0 && !self@.guessed[i] {
                    "-------"@
                } else {
                    self@.rows[i][j]
                },
    {
        let n = self.rows.len();
        let mut out: Vec<Vec<String>> = Vec::new();
        let mut i: usize = 0;
        while i < n
            invariant
                i <= n,
                n == self@.rows.len(),
                self@.wf(),
                out.deep_view().len() == i,
                forall|k: int|
                    0 <= k < i ==> #[trigger] out.deep_view()[k].len() == self@.rows[k].len(),
                forall|k: int, j: int|
                    0 <= k < i && 0 <= j < self@.rows[k].len() ==> #[trigger] out.deep_view()[k][j]
                        == if j == 0 && !self@.guessed[k] {
                        "-------"@
                    } else {
                        self@.rows[k][j]
                    },
            decreases n - i,
        {
            let rl = self.rows[i].len();
            let mut masked: Vec<String> = Vec::new();
            let mut j: usize = 0;
            proof {
                assert(self@.rows[i as int] == self.rows@[i as int].deep_view());
            }
            while j < rl
                invariant
                    j <= rl,
                    i < n,
                    n == self@.rows.len(),
                    self@.wf(),
                    rl == self@.rows[i as int].len(),
                    masked.deep_view().len() == j,
                    forall|t: int|
                        0 <= t < j ==> #[trigger] masked.deep_view()[t] == if t == 0
                            && !self@.guessed[i as int] {
                            "-------"@
                        } else {
                            self@.rows[i as int][t]
                        },
                decreases rl - j,
            {
                let ghost mv0 = masked.deep_view();
                if j == 0 && !self.guessed[i] {
                    let ph = String::from_str("-------");
                    proof {
                        assert(ph@ == "-------"@);
                    }
                    masked.push(ph);
                } else {
                    let row = &self.rows[i];
                    proof {
                        assert(self@.rows[i as int][j as int] == row@[j as int]@);
                    }
                    let cell = row[j].clone();
                    masked.push(cell);
                }
                j = j + 1;
                proof {
                    assert forall|t: int|
                        0 <= t < j implies #[trigger] masked.deep_view()[t] == if t == 0
                        && !self@.guessed[i as int] {
                        "-------"@
                    } else {
                        self@.rows[i as int][t]
                    } by {
                        if t < j - 1 {
                            assert(masked.deep_view()[t] == mv0[t]);
                        } else {
                            assert(masked.deep_view()[t] == masked@[t]@);
                        }
                    }
                }
            }
            let ghost ov0 = out.deep_view();
            let ghost mview = masked.deep_view();
            out.push(masked);
            i = i + 1;
            proof {
                assert(out.deep_view().len() == i);
                assert forall|k: int|
                    0 <= k < i implies #[trigger] out.deep_view()[k].len()
                    == self@.rows[k].len() by {
                    if k < i - 1 {
                        assert(out.deep_view()[k] == ov0[k]);
                    } else {
                        assert(out.deep_view()[k] == mview);
                    }
                }
                assert forall|k: int, j: int|
                    0 <= k < i && 0 <= j < self@.rows[k].len() implies #[trigger] out.deep_view(
                )[k][j] == if j == 0 && !self@.guessed[k] {
                    "-------"@
                } else {
                    self@.rows[k][j]
                } by {
                    if k < i - 1 {
                        assert(out.deep_view()[k] == ov0[k]);
                    } else {
                        assert(out.deep_view()[k] == mview);
                    }
                }
            }
        }
        out
    }

    /// The finished round's score and row count.
    pub fn result(&self) -> (r: TriviaResult)
        ensures
            r.score as int == self@.score,
            r.total as int == self@.rows.len(),
    {
        TriviaResult { score: self.score, total: self.rows.len() }
    }
}

/// A board with no entry guessed counts zero.
proof fn lemma_count_all_false(s: Seq<bool>)
    requires
        forall|i: int| 0 <= i < s.len() ==> !s[i],
    ensures
        count_true(s) == 0,
    decreases s.len(),
{
    if s.len() > 0 {
        lemma_count_all_false(s.drop_last());
    }
}

/// A board with no entry guessed scores zero.
proof fn lemma_score_all_false(points: Seq<u32>, guessed: Seq<bool>)
    requires
        points.len() == guessed.len(),
        forall|i: int| 0 <= i < guessed.len() ==> !guessed[i],
    ensures
        score_sum(points, guessed) == 0,
    decreases points.len(),
{
    if points.len() > 0 {
        lemma_score_all_false(points.drop_last(), guessed.drop_last());
    }
}

/// Trim a typed line; an all-whitespace line yields nothing to guess.
pub fn prepare_guess(line: &str) -> (r: Option<String>)
    ensures
        match r {
            Some(g) => g@ == trim_spec(line@) && trim_spec(line@).len() > 0,
            None => trim_spec(line@).len() == 0,
        },
{
    let chars = chars_of(line);
    let trimmed = trim_chars(&chars);
    if trimmed.len() == 0 {
        None
    } else {
        Some(string_from_chars(&trimmed))
    }
}

/// Whether a line is the reveal command, letter case aside.
pub fn is_reveal_command(s: &str) -> (r: bool)
    ensures
        r == eq_ignore_ascii(s@, "reveal"@),
{
    let v = chars_of(s);
    let lv = to_ascii_lower(&v);
    let r = chars_eq_str(&lv, "reveal");
    proof {
        reveal_strlit("reveal");
        assert(lower_ascii("reveal"@) =~= "reveal"@);
    }
    r
}

/// Three missed guesses from a strike-free board end the round lost, with
/// the correct count and score untouched.
pub proof fn lemma_three_strikes_lost(m: BoardModel, g1: Seq<char>, g2: Seq<char>, g3: Seq<char>)
    requires
        m.wf(),
        m.strikes == 0,
        m.correct < m.rows.len(),
        forall|i: int| 0 <= i < m.rows.len() ==> !m.row_matches(g1, i),
        forall|i: int| 0 <= i < m.rows.len() ==> !m.row_matches(g2, i),
        forall|i: int| 0 <= i < m.rows.len() ==> !m.row_matches(g3, i),
    ensures
        ({
            let end = m.step(g1).step(g2).step(g3);
            &&& end.state() is Lost
            &&& end.strikes == 3
            &&& end.correct == m.correct
            &&& end.score == m.score
        }),
{
    lemma_first_match_none(m, g1, 0);
    assert(!m.duplicate(g1));
    let m1 = m.step(g1);
    assert(m1.rows == m.rows && m1.guessed == m.guessed);
    assert forall|j: int| 0 <= j < m1.rows.len() implies !#[trigger] m1.row_matches(g2, j) by {
        assert(m1.rows[j] == m.rows[j]);
        assert(!m.row_matches(g2, j));
    }
    lemma_first_match_none(m1, g2, 0);
    assert(!m1.duplicate(g2));
    let m2 = m1.step(g2);
    assert(m2.rows == m.rows && m2.guessed == m.guessed);
    assert forall|j: int| 0 <= j < m2.rows.len() implies !#[trigger] m2.row_matches(g3, j) by {
        assert(m2.rows[j] == m.rows[j]);
        assert(!m.row_matches(g3, j));
    }
    lemma_first_match_none(m2, g3, 0);
    assert(!m2.duplicate(g3));
}

/// Once every row is guessed the round is won and the score is the sum of
/// every row's point value.
pub proof fn lemma_all_guessed_won(m: BoardModel)
    requires
        m.wf(),
        m.correct == m.rows.len(),
    ensures
        m.state() is Won,
        m.score == sum_points(m.points),
{
    lemma_count_true_full(m.guessed);
    lemma_score_sum_full(m.points, m.guessed);
}

} // verus!
