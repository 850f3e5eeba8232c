//! Fitness evaluation: the scores of a team's output for consistency and
//! efficiency, the penalty for repeating a poor conclusion, and the total
//! that ranks the teams.
//!
//! All scores, weights and penalties are whole numbers of millionths.
//! Divisions round down.

use vstd::prelude::*;
use crate::agent::{output_views, AgentOutput, AgentOutputView};
use crate::config::{Config, MAX_GENERATIONS};
use crate::genotype::ReasoningStrategy;
use crate::numeral::{SCORE_MAX, SCORE_MIN};
use crate::similarity::{is_above_three_fifths, overlap_of, similarity_of, WordSet};
use crate::team::{TeamOutput, TeamOutputView};
use crate::text::{
    alphanumerics_of, byte_len, chars_of, keep_alphanumerics, lowercase, lowercase_of, split_words,
    strip_non_alphanumeric, strip_punctuation, tail_chars, tail_of, utf8_len, views_of, words_of,
};

verus! {

/// The number of characters at the end of an answer that count as its
/// conclusion when fingerprints are taken.
pub const FINGERPRINT_WINDOW: usize = 200;

/// Scores below this, seven, mark a conclusion as poor.
pub const POOR_SCORE: u32 = 7_000_000;

/// The largest number of outputs that one team's evaluation can count the
/// pairs of.
pub const MAX_OUTPUTS: usize = 0xFFFF_FFFF;

/// The mathematical content of a [`FitnessScore`].
pub ghost struct FitnessView {
    pub quality: u32,
    pub consistency: u32,
    pub efficiency: u32,
    pub diversity_penalty: u32,
    pub total: u32,
    pub judge_critique: Seq<char>,
}

/// The fitness of one team in one generation.
#[derive(Debug)]
pub struct FitnessScore {
    pub quality: u32,
    pub consistency: u32,
    pub efficiency: u32,
    pub diversity_penalty: u32,
    pub total: u32,
    pub judge_critique: String,
}

impl View for FitnessScore {
    type V = FitnessView;

    open spec fn view(&self) -> FitnessView {
        FitnessView {
            quality: self.quality,
            consistency: self.consistency,
            efficiency: self.efficiency,
            diversity_penalty: self.diversity_penalty,
            total: self.total,
            judge_critique: self.judge_critique@,
        }
    }
}

impl Clone for FitnessScore {
    fn clone(&self) -> (r: Self)
        ensures
            r@ == self@,
    {
        FitnessScore {
            quality: self.quality,
            consistency: self.consistency,
            efficiency: self.efficiency,
            diversity_penalty: self.diversity_penalty,
            total: self.total,
            judge_critique: self.judge_critique.clone(),
        }
    }
}

impl FitnessScore {
    /// The fitness given to a team whose evaluation failed: one on every
    /// scale, no penalty, no critique.
    pub fn lowest() -> (r: Self)
        ensures
            r@ == (FitnessView {
                quality: SCORE_MIN,
                consistency: SCORE_MIN,
                efficiency: SCORE_MIN,
                diversity_penalty: 0,
                total: SCORE_MIN,
                judge_critique: Seq::empty(),
            }),
    {
        FitnessScore {
            quality: SCORE_MIN,
            consistency: SCORE_MIN,
            efficiency: SCORE_MIN,
            diversity_penalty: 0,
            total: SCORE_MIN,
            judge_critique: String::new(),
        }
    }
}

/// `x`, raised to `low` or lowered to `high` where it lies outside.
pub open spec fn clamp(x: int, low: int, high: int) -> int {
    if x < low {
        low
    } else if x > high {
        high
    } else {
        x
    }
}

/// Whether an output is that of a red-team agent.
pub open spec fn is_red(o: AgentOutputView) -> bool {
    o.strategy == ReasoningStrategy::RedTeam
}

/// The fingerprint words among the first `upto` of `words`: each word is
/// reduced to its letters and digits and kept if more than two bytes remain.
pub open spec fn fingerprint_words(words: Seq<Seq<char>>, upto: int) -> Set<Seq<char>>
    decreases upto,
{
    if upto <= 0 {
        Set::empty()
    } else {
        let before = fingerprint_words(words, upto - 1);
        let clean = alphanumerics_of(words[upto - 1]);
        if byte_len(clean) > 2 {
            before.insert(clean)
        } else {
            before
        }
    }
}

/// The fingerprint of one answer: the fingerprint words of its last 200
/// characters, lower-cased.
pub open spec fn content_fingerprint(content: Seq<char>) -> Set<Seq<char>> {
    let words = words_of(lowercase_of(tail_of(content, FINGERPRINT_WINDOW as nat)));
    fingerprint_words(words, words.len() as int)
}

/// The fingerprint of the first `upto` outputs: the union of the
/// fingerprints of those that are not red-team outputs.
pub open spec fn fingerprint_upto(outputs: Seq<AgentOutputView>, upto: int) -> Set<Seq<char>>
    decreases upto,
{
    if upto <= 0 {
        Set::empty()
    } else {
        let before = fingerprint_upto(outputs, upto - 1);
        if is_red(outputs[upto - 1]) {
            before
        } else {
            before.union(content_fingerprint(outputs[upto - 1].content))
        }
    }
}

/// The fingerprint of a team's output.
pub open spec fn fingerprint_of(output: TeamOutputView) -> Set<Seq<char>> {
    fingerprint_upto(output.agent_outputs, output.agent_outputs.len() as int)
}

/// The penalty that one earlier conclusion puts on a fingerprint: none
/// unless the two are more than three fifths alike and the earlier score was
/// poor; else three times the share of the earlier score's shortfall in six,
/// times the share of the similarity's excess over three fifths in two
/// fifths.
pub open spec fn penalty_from(fingerprint: Set<Seq<char>>, earlier: (Set<Seq<char>>, u32)) -> int {
    let o = overlap_of(fingerprint, earlier.0);
    if o.above_three_fifths() && earlier.1 < POOR_SCORE {
        (POOR_SCORE - earlier.1) * (5 * o.shared - 3 * o.total) / (4 * o.total)
    } else {
        0
    }
}

/// The largest penalty that one of the first `upto` earlier conclusions
/// puts on a fingerprint.
pub open spec fn worst_penalty(
    fingerprint: Set<Seq<char>>,
    earlier: Seq<(Set<Seq<char>>, u32)>,
    upto: int,
) -> int
    decreases upto,
{
    if upto <= 0 {
        0
    } else {
        let before = worst_penalty(fingerprint, earlier, upto - 1);
        let this = penalty_from(fingerprint, earlier[upto - 1]);
        if this > before {
            this
        } else {
            before
        }
    }
}

/// The words of an answer as they count for consistency, among the first
/// `upto` of `words`: each word without the punctuation around it, unless
/// nothing remains.
pub open spec fn profile_words(words: Seq<Seq<char>>, upto: int) -> Set<Seq<char>>
    decreases upto,
{
    if upto <= 0 {
        Set::empty()
    } else {
        let before = profile_words(words, upto - 1);
        let clean = strip_non_alphanumeric(words[upto - 1]);
        if clean.len() > 0 {
            before.insert(clean)
        } else {
            before
        }
    }
}

/// The word set of one answer as it counts for consistency.
pub open spec fn profile_of(content: Seq<char>) -> Set<Seq<char>> {
    let words = words_of(lowercase_of(content));
    profile_words(words, words.len() as int)
}

/// The sums over the pairs of outputs that consistency is computed from.
pub ghost struct PairTally {
    /// The similarities of the pairs of standard outputs, added up.
    pub standard_sum: int,
    /// The number of pairs of standard outputs.
    pub standard_pairs: int,
    /// One minus the similarity of each pair with a red-team output, added
    /// up.
    pub red_sum: int,
    /// The number of pairs with a red-team output.
    pub red_pairs: int,
}

/// The tally after one more pair.
pub open spec fn tally_pair(t: PairTally, a: AgentOutputView, b: AgentOutputView) -> PairTally {
    let similarity = overlap_of(profile_of(a.content), profile_of(b.content)).similarity();
    if is_red(a) || is_red(b) {
        PairTally {
            red_sum: t.red_sum + (1_000_000 - similarity),
            red_pairs: t.red_pairs + 1,
            ..t
        }
    } else {
        PairTally {
            standard_sum: t.standard_sum + similarity,
            standard_pairs: t.standard_pairs + 1,
            ..t
        }
    }
}

/// The tally after the pairs of output `i` with the outputs after it, up to
/// `upto`.
pub open spec fn tally_row(t: PairTally, outputs: Seq<AgentOutputView>, i: int, upto: int)
    -> PairTally
    decreases upto - i,
{
    if upto <= i + 1 {
        t
    } else {
        tally_pair(tally_row(t, outputs, i, upto - 1), outputs[i], outputs[upto - 1])
    }
}

/// The tally after all pairs whose first output is among the first `upto`.
pub open spec fn tally_rows(outputs: Seq<AgentOutputView>, upto: int) -> PairTally
    decreases upto,
{
    if upto <= 0 {
        PairTally { standard_sum: 0, standard_pairs: 0, red_sum: 0, red_pairs: 0 }
    } else {
        tally_row(tally_rows(outputs, upto - 1), outputs, upto - 1, outputs.len() as int)
    }
}

/// The consistency of a team's outputs. Fewer than two outputs are
/// perfectly consistent. Else it is one, plus seven times the mean
/// similarity of the pairs of standard outputs (one where there is no such
/// pair), plus twice the mean dissimilarity of the pairs with a red-team
/// output (zero where there is no such pair), at most ten.
pub open spec fn consistency_of(outputs: Seq<AgentOutputView>) -> int {
    if outputs.len() < 2 {
        SCORE_MAX as int
    } else {
        let t = tally_rows(outputs, outputs.len() as int);
        let base = if t.standard_pairs > 0 {
            t.standard_sum / t.standard_pairs
        } else {
            1_000_000
        };
        let divergence = if t.red_pairs > 0 {
            t.red_sum / t.red_pairs
        } else {
            0
        };
        clamp(1_000_000 + base * 7 + divergence * 2, SCORE_MIN as int, SCORE_MAX as int)
    }
}

/// The efficiency of a team that used `total_tokens` where each of its
/// `agent_count` agents (counted as one if there is none) could use
/// `max_tokens`: ten times the unused share of the budget, at least one. A
/// team without any budget has the lowest efficiency.
pub open spec fn efficiency_of(total_tokens: u32, max_tokens: u32, agent_count: nat) -> int {
    let agents: int = if agent_count < 1 {
        1
    } else {
        agent_count as int
    };
    let budget = max_tokens * agents;
    if budget == 0 || total_tokens >= budget {
        SCORE_MIN as int
    } else {
        clamp(
            10_000_000 * (budget - total_tokens) / budget,
            SCORE_MIN as int,
            SCORE_MAX as int,
        )
    }
}

/// The weight of efficiency in a generation: the configured weight times
/// the square of the share of the run that is still ahead, so that it is
/// the full weight in the first generation and nothing in the last, nor
/// after it. A run of one generation has the full weight.
pub open spec fn decayed_weight(weight: u32, generation: nat, max_generations: nat) -> int {
    if max_generations <= 1 {
        weight as int
    } else {
        let last = max_generations - 1;
        let ahead = if generation < last {
            last - generation
        } else {
            0
        };
        weight * ahead * ahead / (last * last)
    }
}

/// The total fitness: the weighted sum of the three scores less the
/// penalty, at least zero and at most ten.
pub open spec fn total_of(
    quality_weight: u32,
    quality: u32,
    consistency_weight: u32,
    consistency: u32,
    efficiency_weight: int,
    efficiency: u32,
    penalty: u32,
) -> int {
    clamp(
        (quality_weight * quality + consistency_weight * consistency + efficiency_weight
            * efficiency) / 1_000_000 - penalty,
        0,
        SCORE_MAX as int,
    )
}

/// The total fitness lies between zero and ten, whatever the scores, the
/// weights and the penalty.
pub proof fn law_total_is_bounded(
    quality_weight: u32,
    quality: u32,
    consistency_weight: u32,
    consistency: u32,
    efficiency_weight: int,
    efficiency: u32,
    penalty: u32,
)
    ensures
        0 <= total_of(
            quality_weight,
            quality,
            consistency_weight,
            consistency,
            efficiency_weight,
            efficiency,
            penalty,
        ) <= SCORE_MAX,
{
}

/// In the first generation efficiency has its configured weight; in the
/// last generation of a run of more than one it has none; in every
/// generation the weight is never above the configured one.
pub proof fn law_efficiency_weight_decays(weight: u32, generation: nat, max_generations: nat)
    ensures
        decayed_weight(weight, 0, max_generations) == weight,
        max_generations > 1 ==> decayed_weight(
            weight,
            (max_generations - 1) as nat,
            max_generations,
        ) == 0,
        0 <= decayed_weight(weight, generation, max_generations) <= weight,
{
    if max_generations > 1 {
        let last = (max_generations - 1) as int;
        let ahead = if generation < last {
            last - generation
        } else {
            0
        };
        let w = weight as int;
        assert(w * last * last / (last * last) == w) by (nonlinear_arith)
            requires
                last > 0,
        ;
        assert(w * 0 * 0 / (last * last) == 0) by (nonlinear_arith)
            requires
                last > 0,
        ;
        assert(0 <= w * ahead * ahead / (last * last) <= w) by (nonlinear_arith)
            requires
                last > 0,
                0 <= ahead <= last,
                w >= 0,
        ;
    }
}

/// The weight of efficiency in a generation.
pub fn decayed_efficiency_weight(weight: u32, generation: usize, max_generations: usize) -> (r: u32)
    requires
        max_generations <= MAX_GENERATIONS,
    ensures
        r == decayed_weight(weight, generation as nat, max_generations as nat),
        r <= weight,
{
    if max_generations <= 1 {
        return weight;
    }
    let last = (max_generations - 1) as u128;
    let ahead: u128 = if (generation as u128) < last {
        last - generation as u128
    } else {
        0
    };
    proof {
        let w = weight as int;
        assert(0 <= w * ahead * ahead / (last * last) <= w) by (nonlinear_arith)
            requires
                last > 0,
                0 <= ahead <= last,
                w >= 0,
        ;
        assert(w * ahead <= 0xFFFF_FFFF * 0xFFFF_FFFF) by (nonlinear_arith)
            requires
                0 <= w <= 0xFFFF_FFFF,
                0 <= ahead <= 0xFFFF_FFFF,
        ;
        assert(w * ahead * ahead <= 0xFFFF_FFFF * 0xFFFF_FFFF * 0xFFFF_FFFF) by (nonlinear_arith)
            requires
                0 <= w * ahead <= 0xFFFF_FFFF * 0xFFFF_FFFF,
                0 <= ahead <= 0xFFFF_FFFF,
        ;
        assert(0 < last * last <= 0xFFFF_FFFF * 0xFFFF_FFFF) by (nonlinear_arith)
            requires
                0 < last <= 0xFFFF_FFFF,
        ;
    }
    let scaled = weight as u128 * ahead * ahead / (last * last);
    scaled as u32
}

/// The efficiency of a team's output under a token budget per agent.
pub fn evaluate_efficiency(output: &TeamOutput, max_tokens: u32) -> (r: u32)
    ensures
        r == efficiency_of(output@.total_tokens, max_tokens, output@.agent_outputs.len()),
        SCORE_MIN <= r <= SCORE_MAX,
{
    let agents: u128 = if output.agent_outputs.len() < 1 {
        1
    } else {
        output.agent_outputs.len() as u128
    };
    proof {
        assert(max_tokens * agents <= 0xFFFF_FFFF * 0xFFFF_FFFF_FFFF_FFFF) by (nonlinear_arith)
            requires
                0 <= max_tokens <= 0xFFFF_FFFF,
                0 <= agents <= 0xFFFF_FFFF_FFFF_FFFF,
        ;
    }
    let budget: u128 = max_tokens as u128 * agents;
    let used = output.total_tokens as u128;
    if budget == 0 || used >= budget {
        return SCORE_MIN;
    }
    proof {
        assert(10_000_000 * (budget - used) <= 10_000_000 * budget) by (nonlinear_arith)
            requires
                0 <= used < budget,
        ;
        assert(10_000_000 * (budget - used) / (budget as int) <= 10_000_000) by (nonlinear_arith)
            requires
                0 <= used < budget,
        ;
    }
    let score = 10_000_000 * (budget - used) / budget;
    if score < SCORE_MIN as u128 {
        SCORE_MIN
    } else {
        score as u32
    }
}

/// The total fitness.
pub fn total_fitness(
    quality_weight: u32,
    quality: u32,
    consistency_weight: u32,
    consistency: u32,
    efficiency_weight: u32,
    efficiency: u32,
    penalty: u32,
) -> (r: u32)
    ensures
        r == total_of(
            quality_weight,
            quality,
            consistency_weight,
            consistency,
            efficiency_weight as int,
            efficiency,
            penalty,
        ),
        r <= SCORE_MAX,
{
    proof {
        assert(quality_weight * quality <= 0xFFFF_FFFF * 0xFFFF_FFFF) by (nonlinear_arith)
            requires
                0 <= quality_weight <= 0xFFFF_FFFF,
                0 <= quality <= 0xFFFF_FFFF,
        ;
        assert(consistency_weight * consistency <= 0xFFFF_FFFF * 0xFFFF_FFFF) by (nonlinear_arith)
            requires
                0 <= consistency_weight <= 0xFFFF_FFFF,
                0 <= consistency <= 0xFFFF_FFFF,
        ;
        assert(efficiency_weight * efficiency <= 0xFFFF_FFFF * 0xFFFF_FFFF) by (nonlinear_arith)
            requires
                0 <= efficiency_weight <= 0xFFFF_FFFF,
                0 <= efficiency <= 0xFFFF_FFFF,
        ;
    }
    let weighted = (quality_weight as u128 * quality as u128 + consistency_weight as u128
        * consistency as u128 + efficiency_weight as u128 * efficiency as u128) / 1_000_000;
    if weighted <= penalty as u128 {
        0
    } else if weighted - penalty as u128 > SCORE_MAX as u128 {
        SCORE_MAX
    } else {
        (weighted - penalty as u128) as u32
    }
}

/// The word set of one answer's fingerprint.
pub fn fingerprint_content(content: &str) -> (r: WordSet)
    ensures
        r.wf(),
        r@ == content_fingerprint(content@),
{
    let tail = tail_chars(&chars_of(content), FINGERPRINT_WINDOW);
    let words = split_words(&lowercase(&tail));
    let ghost all = views_of(words@);
    let mut r = WordSet::new();
    let mut i: usize = 0;
    while i < words.len()
        invariant
            i <= words.len(),
            all == views_of(words@),
            r.wf(),
            r@ == fingerprint_words(all, i as int),
        decreases words.len() - i,
    {
        proof {
            assert(all[i as int] == words@[i as int]@);
        }
        let clean = keep_alphanumerics(&words[i]);
        if utf8_len(&clean) > 2 {
            r.insert(clean);
        }
        i += 1;
    }
    r
}

/// The word set of a team's fingerprint.
pub fn fingerprint(output: &TeamOutput) -> (r: WordSet)
    ensures
        r.wf(),
        r@ == fingerprint_of(output@),
{
    let ghost views = output_views(output.agent_outputs@);
    let mut r = WordSet::new();
    let mut i: usize = 0;
    while i < output.agent_outputs.len()
        invariant
            i <= output.agent_outputs.len(),
            views == output_views(output.agent_outputs@),
            r.wf(),
            r@ == fingerprint_upto(views, i as int),
        decreases output.agent_outputs.len() - i,
    {
        let o = &output.agent_outputs[i];
        proof {
            assert(views[i as int] == o@);
        }
        if o.strategy != ReasoningStrategy::RedTeam {
            let words = fingerprint_content(o.content.as_str());
            r.absorb(&words);
        }
        i += 1;
    }
    r
}

/// The word set of one answer as it counts for consistency.
pub fn profile(content: &str) -> (r: WordSet)
    ensures
        r.wf(),
        r@ == profile_of(content@),
{
    let words = split_words(&lowercase(&chars_of(content)));
    let ghost all = views_of(words@);
    let mut r = WordSet::new();
    let mut i: usize = 0;
    while i < words.len()
        invariant
            i <= words.len(),
            all == views_of(words@),
            r.wf(),
            r@ == profile_words(all, i as int),
        decreases words.len() - i,
    {
        proof {
            assert(all[i as int] == words@[i as int]@);
        }
        let clean = strip_punctuation(&words[i]);
        if clean.len() > 0 {
            r.insert(clean);
        }
        i += 1;
    }
    r
}

/// The penalty that one earlier conclusion puts on a fingerprint.
pub fn penalty_between(fingerprint: &WordSet, earlier: &WordSet, earlier_score: u32) -> (r: u32)
    requires
        fingerprint.wf(),
        earlier.wf(),
    ensures
        r == penalty_from(fingerprint@, (earlier@, earlier_score)),
        r <= 3_500_000,
{
    let o = fingerprint.overlap(earlier);
    proof {
        assert(o == overlap_of(fingerprint@, earlier@));
    }
    if is_above_three_fifths(o) && earlier_score < POOR_SCORE {
        let shortfall = (POOR_SCORE - earlier_score) as u128;
        let excess = 5 * o.shared - 3 * o.total;
        proof {
            assert(shortfall * excess <= 7_000_000 * (2 * o.total)) by (nonlinear_arith)
                requires
                    0 <= shortfall <= 7_000_000,
                    0 <= excess <= 2 * o.total,
            ;
            assert(shortfall * excess / ((4 * o.total) as int) <= 3_500_000) by (nonlinear_arith)
                requires
                    0 <= shortfall * excess <= 7_000_000 * (2 * o.total),
                    o.total > 0,
            ;
        }
        (shortfall * excess / (4 * o.total)) as u32
    } else {
        0
    }
}

/// One conclusion on record: the fingerprint of a team's output and the
/// total that the output was given.
#[derive(Debug)]
pub struct Conclusion {
    words: WordSet,
    score: u32,
}

/// The fingerprints and totals of every team scored so far in a run. It
/// only grows.
#[derive(Debug)]
pub struct ConclusionHistory {
    entries: Vec<Conclusion>,
}

impl View for ConclusionHistory {
    type V = Seq<(Set<Seq<char>>, u32)>;

    closed spec fn view(&self) -> Seq<(Set<Seq<char>>, u32)> {
        Seq::new(self.entries@.len(), |i: int| (self.entries@[i].words@, self.entries@[i].score))
    }
}

impl ConclusionHistory {
    /// The representation invariant: every fingerprint on record is a well
    /// formed word set.
    pub closed spec fn wf(&self) -> bool {
        forall|i: int| 0 <= i < self.entries@.len() ==> (#[trigger] self.entries@[i]).words.wf()
    }

    /// An empty history.
    pub fn new() -> (h: Self)
        ensures
            h.wf(),
            h@.len() == 0,
    {
        ConclusionHistory { entries: Vec::new() }
    }

    /// The number of conclusions on record.
    pub fn len(&self) -> (r: usize)
        ensures
            r == self@.len(),
    {
        self.entries.len()
    }

    /// Puts the fingerprint of a scored output on record.
    pub fn record(&mut self, output: &TeamOutput, score: u32)
        requires
            old(self).wf(),
        ensures
            final(self).wf(),
            final(self)@ == old(self)@.push((fingerprint_of(output@), score)),
    {
        let words = fingerprint(output);
        self.entries.push(Conclusion { words, score });
        proof {
            assert(self@ =~= old(self)@.push((fingerprint_of(output@), score)));
        }
    }

    /// The diversity penalty of an output: the largest penalty that an
    /// earlier conclusion puts on its fingerprint.
    pub fn penalty(&self, output: &TeamOutput) -> (r: u32)
        requires
            self.wf(),
        ensures
            r == worst_penalty(fingerprint_of(output@), self@, self@.len() as int),
            r <= 3_500_000,
    {
        let words = fingerprint(output);
        let mut worst: u32 = 0;
        let mut i: usize = 0;
        while i < self.entries.len()
            invariant
                i <= self.entries.len(),
                self.wf(),
                words.wf(),
                words@ == fingerprint_of(output@),
                worst == worst_penalty(words@, self@, i as int),
                worst <= 3_500_000,
            decreases self.entries.len() - i,
        {
            let entry = &self.entries[i];
            proof {
                assert(self@[i as int] == (entry.words@, entry.score));
            }
            let this = penalty_between(&words, &entry.words, entry.score);
            if this > worst {
                worst = this;
            }
            i += 1;
        }
        worst
    }
}

impl Clone for ConclusionHistory {
    fn clone(&self) -> (r: Self)
        ensures
            r@ == self@,
            r.wf(),
    {
        let mut entries: Vec<Conclusion> = Vec::new();
        let mut i: usize = 0;
        while i < self.entries.len()
            invariant
                i <= self.entries.len(),
                entries@.len() == i,
                forall|k: int|
                    0 <= k < i ==> {
                        &&& (#[trigger] entries@[k]).words.wf()
                        &&& entries@[k].words@ == self.entries@[k].words@
                        &&& entries@[k].score == self.entries@[k].score
                    },
            decreases self.entries.len() - i,
        {
            entries.push(
                Conclusion { words: self.entries[i].words.duplicate(), score: self.entries[i].score },
            );
            i += 1;
        }
        let r = ConclusionHistory { entries };
        proof {
            assert(r@ =~= self@);
        }
        r
    }
}

impl Default for ConclusionHistory {
    fn default() -> (h: Self)
        ensures
            h.wf(),
            h@.len() == 0,
    {
        ConclusionHistory::new()
    }
}

/// What consistency needs to know of one output.
struct Profile {
    words: WordSet,
    red: bool,
}

/// The consistency of a team's outputs.
pub fn evaluate_consistency(output: &TeamOutput) -> (r: u32)
    requires
        output@.agent_outputs.len() <= MAX_OUTPUTS,
    ensures
        r == consistency_of(output@.agent_outputs),
        SCORE_MIN <= r <= SCORE_MAX,
{
    let outputs = &output.agent_outputs;
    let n = outputs.len();
    if n < 2 {
        return SCORE_MAX;
    }
    let ghost views = output_views(outputs@);
    let mut profiles: Vec<Profile> = Vec::new();
    let mut k: usize = 0;
    while k < n
        invariant
            k <= n,
            n == outputs.len(),
            views == output_views(outputs@),
            profiles@.len() == k,
            forall|i: int|
                0 <= i < k ==> {
                    &&& (#[trigger] profiles@[i]).words.wf()
                    &&& profiles@[i].words@ == profile_of(views[i].content)
                    &&& profiles@[i].red == is_red(views[i])
                },
        decreases n - k,
    {
        let o = &outputs[k];
        proof {
            assert(views[k as int] == o@);
        }
        profiles.push(
            Profile {
                words: profile(o.content.as_str()),
                red: o.strategy == ReasoningStrategy::RedTeam,
            },
        );
        k += 1;
    }
    let mut standard_sum: u128 = 0;
    let mut standard_pairs: u128 = 0;
    let mut red_sum: u128 = 0;
    let mut red_pairs: u128 = 0;
    let mut i: usize = 0;
    while i < n
        invariant
            i <= n,
            n == outputs.len(),
            n <= MAX_OUTPUTS,
            views == output_views(outputs@),
            views.len() == n,
            profiles@.len() == n,
            forall|i: int|
                0 <= i < n ==> {
                    &&& (#[trigger] profiles@[i]).words.wf()
                    &&& profiles@[i].words@ == profile_of(views[i].content)
                    &&& profiles@[i].red == is_red(views[i])
                },
            tally_rows(views, i as int) == (PairTally {
                standard_sum: standard_sum as int,
                standard_pairs: standard_pairs as int,
                red_sum: red_sum as int,
                red_pairs: red_pairs as int,
            }),
            standard_pairs + red_pairs <= i * 0x1_0000_0000,
            standard_sum <= standard_pairs * 1_000_000,
            red_sum <= red_pairs * 1_000_000,
        decreases n - i,
    {
        let mut j: usize = i + 1;
        while j < n
            invariant
                i < n,
                i + 1 <= j <= n,
                n == outputs.len(),
                n <= MAX_OUTPUTS,
                views == output_views(outputs@),
                views.len() == n,
                profiles@.len() == n,
                forall|i: int|
                    0 <= i < n ==> {
                        &&& (#[trigger] profiles@[i]).words.wf()
                        &&& profiles@[i].words@ == profile_of(views[i].content)
                        &&& profiles@[i].red == is_red(views[i])
                    },
                tally_row(tally_rows(views, i as int), views, i as int, j as int) == (PairTally {
                    standard_sum: standard_sum as int,
                    standard_pairs: standard_pairs as int,
                    red_sum: red_sum as int,
                    red_pairs: red_pairs as int,
                }),
                standard_pairs + red_pairs <= i * 0x1_0000_0000 + (j - i - 1),
                standard_sum <= standard_pairs * 1_000_000,
                red_sum <= red_pairs * 1_000_000,
            decreases n - j,
        {
            let o = profiles[i].words.overlap(&profiles[j].words);
            proof {
                assert(o == overlap_of(profile_of(views[i as int].content), profile_of(
                    views[j as int].content,
                )));
            }
            let similarity = similarity_of(o) as u128;
            if profiles[i].red || profiles[j].red {
                red_sum = red_sum + (1_000_000 - similarity);
                red_pairs = red_pairs + 1;
            } else {
                standard_sum = standard_sum + similarity;
                standard_pairs = standard_pairs + 1;
            }
            j += 1;
        }
        i += 1;
    }
    let base: u128 = if standard_pairs > 0 {
        standard_sum / standard_pairs
    } else {
        1_000_000
    };
    let divergence: u128 = if red_pairs > 0 {
        red_sum / red_pairs
    } else {
        0
    };
    proof {
        if standard_pairs > 0 {
            assert(standard_sum / standard_pairs <= 1_000_000) by (nonlinear_arith)
                requires
                    0 <= standard_sum <= standard_pairs * 1_000_000,
                    standard_pairs > 0,
            ;
        }
        if red_pairs > 0 {
            assert(red_sum / red_pairs <= 1_000_000) by (nonlinear_arith)
                requires
                    0 <= red_sum <= red_pairs * 1_000_000,
                    red_pairs > 0,
            ;
        }
    }
    let score = 1_000_000 + base * 7 + divergence * 2;
    if score > SCORE_MAX as u128 {
        SCORE_MAX
    } else {
        score as u32
    }
}

/// The weights with which the three scores enter the total.
#[derive(Clone, Copy, Debug, PartialEq, Eq)]
pub struct Orchestrator {
    pub quality_weight: u32,
    pub consistency_weight: u32,
    pub efficiency_weight: u32,
}

impl Orchestrator {
    /// The evaluator that a configuration asks for.
    pub fn new(config: &Config) -> (r: Self)
        ensures
            r.quality_weight == config.quality_weight,
            r.consistency_weight == config.consistency_weight,
            r.efficiency_weight == config.efficiency_weight,
    {
        Orchestrator {
            quality_weight: config.quality_weight,
            consistency_weight: config.consistency_weight,
            efficiency_weight: config.efficiency_weight,
        }
    }

    /// The fitness that an output with the given quality has in a
    /// generation under this evaluator.
    pub open spec fn fitness_of(
        &self,
        output: TeamOutputView,
        quality: u32,
        critique: Seq<char>,
        max_tokens: u32,
        generation: nat,
        max_generations: nat,
        earlier: Seq<(Set<Seq<char>>, u32)>,
    ) -> FitnessView {
        let consistency = consistency_of(output.agent_outputs) as u32;
        let efficiency = efficiency_of(
            output.total_tokens,
            max_tokens,
            output.agent_outputs.len(),
        ) as u32;
        let penalty = worst_penalty(fingerprint_of(output), earlier, earlier.len() as int) as u32;
        FitnessView {
            quality,
            consistency,
            efficiency,
            diversity_penalty: penalty,
            total: total_of(
                self.quality_weight,
                quality,
                self.consistency_weight,
                consistency,
                decayed_weight(self.efficiency_weight, generation, max_generations),
                efficiency,
                penalty,
            ) as u32,
            judge_critique: critique,
        }
    }

    /// Scores a team's output once its quality is known: consistency,
    /// efficiency and the diversity penalty are computed, and all is
    /// weighed into the total.
    pub fn evaluate(
        &self,
        output: &TeamOutput,
        quality: u32,
        judge_critique: String,
        config: &Config,
        generation: usize,
        conclusion_history: &ConclusionHistory,
    ) -> (r: FitnessScore)
        requires
            conclusion_history.wf(),
            output@.agent_outputs.len() <= MAX_OUTPUTS,
            config.max_generations <= MAX_GENERATIONS,
        ensures
            r@ == self.fitness_of(
                output@,
                quality,
                judge_critique@,
                config.max_tokens,
                generation as nat,
                config.max_generations as nat,
                conclusion_history@,
            ),
            r.total <= SCORE_MAX,
            SCORE_MIN <= r.consistency <= SCORE_MAX,
            SCORE_MIN <= r.efficiency <= SCORE_MAX,
    {
        let consistency = evaluate_consistency(output);
        let efficiency = evaluate_efficiency(output, config.max_tokens);
        let efficiency_weight = decayed_efficiency_weight(
            self.efficiency_weight,
            generation,
            config.max_generations,
        );
        let diversity_penalty = conclusion_history.penalty(output);
        let total = total_fitness(
            self.quality_weight,
            quality,
            self.consistency_weight,
            consistency,
            efficiency_weight,
            efficiency,
            diversity_penalty,
        );
        FitnessScore { quality, consistency, efficiency, diversity_penalty, total, judge_critique }
    }
}

} // verus!
