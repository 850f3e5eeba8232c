//! The arena: the control loop of a run, generation by generation.
//!
//! Executing teams and asking models is the caller's part. The arena says
//! which teams are to be executed, takes their scores, keeps the record of
//! the best team, decides whether the run has converged or is exhausted,
//! and otherwise has the next generation bred.

use vstd::prelude::*;
use rand::rngs::StdRng;
use crate::config::Config;
use crate::evolution::{
    create_initial_population, is_next_generation, next_generation, rank, ranked, scored_views,
    team_views, PopulationMember, ScoredTeam, ScoredTeamView,
};
use crate::judge::{plan_quality, QualityPlan};
use crate::knowledge::{after_conflicts, after_critique, KnowledgeBase, KnowledgeView};
use crate::llm::ChatRequest;
use crate::orchestrator::{
    fingerprint_of, ConclusionHistory, FitnessScore, FitnessView, Orchestrator, MAX_OUTPUTS,
};
use crate::team::{output_blocks, render_outputs, Team, TeamOutput, TeamOutputView, TeamView};
use crate::text::{chars_of, push_chars, push_str_chars, string_of};

verus! {

/// The number of insights that the knowledge base of a run holds.
pub const KNOWLEDGE_CAPACITY: usize = 15;

/// The temperature of the synthesis call, three tenths, in millionths.
pub const SYNTHESIS_TEMPERATURE: u32 = 300_000;

/// The system prompt of the synthesis call.
pub const SYNTHESIS_SYSTEM: &'static str =
    "You are a synthesis expert. Combine multiple expert analyses into one \
                 clear, comprehensive response.";

/// What stands before the problem in the synthesis message.
pub const SYNTHESIS_OPENING: &'static str =
    "Synthesise the following expert analyses into a single, comprehensive response.\n\n\
             **Problem:** ";

/// What stands between the problem and the answers in the synthesis message.
pub const SYNTHESIS_ANALYSES: &'static str = "\n\n\
             **Expert Analyses:**\n";

/// What closes the synthesis message.
pub const SYNTHESIS_CLOSING: &'static str =
    "\n\
             Provide a unified, authoritative response that incorporates the strongest \
             insights from each expert. Be thorough but concise.";

/// The scores of one team as they are reported after a generation.
#[derive(Debug)]
pub struct TeamScore {
    pub name: String,
    pub total: u32,
    pub quality: u32,
    pub consistency: u32,
    pub efficiency: u32,
}

impl Clone for TeamScore {
    fn clone(&self) -> (r: Self)
        ensures
            r.name@ == self.name@,
            r.total == self.total,
            r.quality == self.quality,
            r.consistency == self.consistency,
            r.efficiency == self.efficiency,
    {
        TeamScore {
            name: self.name.clone(),
            total: self.total,
            quality: self.quality,
            consistency: self.consistency,
            efficiency: self.efficiency,
        }
    }
}

/// What a run came to.
#[derive(Debug)]
pub struct EvolutionResult {
    pub best_team: Team,
    pub best_output: TeamOutput,
    pub best_score: FitnessScore,
    pub synthesis: String,
    pub generations_run: usize,
}

impl Clone for EvolutionResult {
    fn clone(&self) -> (r: Self)
        ensures
            r.best_team@ == self.best_team@,
            r.best_output@ == self.best_output@,
            r.best_score@ == self.best_score@,
            r.synthesis@ == self.synthesis@,
            r.generations_run == self.generations_run,
    {
        EvolutionResult {
            best_team: self.best_team.clone(),
            best_output: self.best_output.clone(),
            best_score: self.best_score.clone(),
            synthesis: self.synthesis.clone(),
            generations_run: self.generations_run,
        }
    }
}

/// What a run reports while it goes on. Generations are counted from one.
#[derive(Debug)]
pub enum ArenaEvent {
    GenerationStarted { gen: usize, total: usize },
    GenerationComplete { gen: usize, scores: Vec<TeamScore>, best_name: String, best_score: u32 },
    Evolving { kept: usize, spawning: usize },
    Converged { gen: usize, score: u32 },
    Warning(String),
    SynthesisStarted,
    Completed(EvolutionResult),
    Error(String),
}

/// How a generation ended.
#[derive(Clone, Copy, Debug, PartialEq, Eq, Structural)]
pub enum Outcome {
    /// The best total reached the threshold: the run is over.
    Converged,
    /// The last generation was scored: the run is over.
    Exhausted,
    /// The next generation was bred and is to be executed.
    Evolved,
}

/// The mathematical content of an [`ArenaRun`].
pub ghost struct RunView {
    /// The teams of the generation in progress.
    pub population: Seq<TeamView>,
    /// The elites of the last generation, with what they were given there.
    pub carried: Seq<ScoredTeamView>,
    pub knowledge: KnowledgeView,
    /// The fingerprint and total of every team scored so far.
    pub history: Seq<(Set<Seq<char>>, u32)>,
    /// The best team so far, as scored.
    pub best: Option<ScoredTeamView>,
    /// The number of generations that were scored.
    pub generation: nat,
    /// Whether the run has converged or is exhausted.
    pub finished: bool,
}

/// One run of the arena.
#[derive(Debug)]
pub struct ArenaRun {
    config: Config,
    orchestrator: Orchestrator,
    population: Vec<Team>,
    elite_cache: Vec<ScoredTeam>,
    knowledge: KnowledgeBase,
    history: ConclusionHistory,
    best_ever: Option<ScoredTeam>,
    generation: usize,
    finished: bool,
}

/// Whether a team with this identity is among the carried elites.
pub open spec fn is_carried(carried: Seq<ScoredTeamView>, id: u128) -> bool {
    exists|k: int| 0 <= k < carried.len() && (#[trigger] carried[k]).team.id == id
}

/// The teams among the first `upto` of the population that are not carried
/// over and so have to be executed, in order.
pub open spec fn pending_of(population: Seq<TeamView>, carried: Seq<ScoredTeamView>, upto: int)
    -> Seq<TeamView>
    decreases upto,
{
    if upto <= 0 {
        Seq::empty()
    } else {
        let before = pending_of(population, carried, upto - 1);
        if is_carried(carried, population[upto - 1].id) {
            before
        } else {
            before.push(population[upto - 1])
        }
    }
}

/// The history after the first `upto` teams of a ranking were put on
/// record.
pub open spec fn history_after(
    history: Seq<(Set<Seq<char>>, u32)>,
    ranking: Seq<ScoredTeamView>,
    upto: int,
) -> Seq<(Set<Seq<char>>, u32)>
    decreases upto,
{
    if upto <= 0 {
        history
    } else {
        history_after(history, ranking, upto - 1).push(
            (fingerprint_of(ranking[upto - 1].output), ranking[upto - 1].score.total),
        )
    }
}

/// The knowledge base after the critiques of the first `upto` teams of a
/// ranking were mined.
pub open spec fn after_critiques(kb: KnowledgeView, ranking: Seq<ScoredTeamView>, upto: int)
    -> KnowledgeView
    decreases upto,
{
    if upto <= 0 {
        kb
    } else {
        after_critique(
            after_critiques(kb, ranking, upto - 1),
            ranking[upto - 1].score.judge_critique,
        )
    }
}

/// The names and outputs of the teams of a ranking.
pub open spec fn named_outputs(ranking: Seq<ScoredTeamView>) -> Seq<(Seq<char>, TeamOutputView)> {
    Seq::new(ranking.len(), |i: int| (ranking[i].team.name, ranking[i].output))
}

/// The knowledge base after a generation: the critiques of all teams are
/// mined, then the teams' outputs are searched for conflicts.
pub open spec fn knowledge_after(kb: KnowledgeView, ranking: Seq<ScoredTeamView>)
    -> KnowledgeView {
    after_conflicts(after_critiques(kb, ranking, ranking.len() as int), named_outputs(ranking))
}

/// The best team after a generation whose best team is `top`: `top` if
/// there was none before or `top` scores strictly more, else as before.
pub open spec fn best_after(best: Option<ScoredTeamView>, top: ScoredTeamView) -> Option<
    ScoredTeamView,
> {
    match best {
        Some(b) => if top.score.total > b.score.total {
            Some(top)
        } else {
            Some(b)
        },
        None => Some(top),
    }
}

/// How a generation ends whose best total is `top`, when `done`
/// generations were scored before it.
pub open spec fn outcome_of(top: u32, done: nat, threshold: u32, max_generations: usize)
    -> Outcome {
    if top >= threshold {
        Outcome::Converged
    } else if done + 2 <= max_generations {
        Outcome::Evolved
    } else {
        Outcome::Exhausted
    }
}

/// The teams of the members of a generation.
pub open spec fn member_teams(members: Seq<crate::evolution::MemberView>) -> Seq<TeamView> {
    Seq::new(members.len(), |i: int| members[i].team)
}

/// The elites among the first `upto` members of a generation, with what
/// they bring along.
pub open spec fn carried_of(members: Seq<crate::evolution::MemberView>, upto: int) -> Seq<
    ScoredTeamView,
>
    decreases upto,
{
    if upto <= 0 {
        Seq::empty()
    } else {
        let before = carried_of(members, upto - 1);
        match members[upto - 1].cached {
            Some((output, score)) => before.push(
                ScoredTeamView { team: members[upto - 1].team, output, score },
            ),
            None => before,
        }
    }
}

/// What the judge model is asked for the final answer.
pub open spec fn synthesis_message_of(problem: Seq<char>, output: TeamOutputView) -> Seq<char> {
    SYNTHESIS_OPENING@ + problem + SYNTHESIS_ANALYSES@ + output_blocks(
        output.agent_outputs,
        output.agent_outputs.len() as int,
    ) + SYNTHESIS_CLOSING@
}

/// The token budget of the synthesis call: four times the budget of an
/// agent, as far as that fits.
pub open spec fn synthesis_budget(max_tokens: u32) -> u32 {
    if max_tokens * 4 > u32::MAX {
        u32::MAX
    } else {
        (max_tokens * 4) as u32
    }
}

/// Whether `e` reports the ranking of a generation: its number, every
/// team's scores in the order of the ranking, and the best team's name and
/// total.
pub open spec fn reports_ranking(e: ArenaEvent, generation: nat, ranking: Seq<ScoredTeamView>)
    -> bool {
    e matches ArenaEvent::GenerationComplete { gen, scores, best_name, best_score } && {
        &&& gen == generation
        &&& best_name@ == ranking[0].team.name
        &&& best_score == ranking[0].score.total
        &&& scores@.len() == ranking.len()
        &&& forall|i: int|
            0 <= i < ranking.len() ==> {
                &&& (#[trigger] scores@[i]).name@ == ranking[i].team.name
                &&& scores@[i].total == ranking[i].score.total
                &&& scores@[i].quality == ranking[i].score.quality
                &&& scores@[i].consistency == ranking[i].score.consistency
                &&& scores@[i].efficiency == ranking[i].score.efficiency
            }
    }
}

/// Whether `e` reports how a generation ended: that the run converged, with
/// the generation and the best total, or that it evolves, with the numbers
/// of elites kept and of children bred.
pub open spec fn reports_outcome(
    e: ArenaEvent,
    outcome: Outcome,
    generation: nat,
    top: u32,
    config: Config,
) -> bool {
    match e {
        ArenaEvent::Converged { gen, score } => outcome == Outcome::Converged && gen == generation
            && score == top,
        ArenaEvent::Evolving { kept, spawning } => outcome == Outcome::Evolved && kept
            == config.elite_count && spawning == config.population_size - config.elite_count,
        _ => false,
    }
}

/// The scores of the teams of a ranking as they are reported.
fn report_scores(scored: &Vec<ScoredTeam>) -> (r: Vec<TeamScore>)
    ensures
        r@.len() == scored@.len(),
        forall|i: int|
            0 <= i < r@.len() ==> {
                &&& (#[trigger] r@[i]).name@ == scored@[i]@.team.name
                &&& r@[i].total == scored@[i].score.total
                &&& r@[i].quality == scored@[i].score.quality
                &&& r@[i].consistency == scored@[i].score.consistency
                &&& r@[i].efficiency == scored@[i].score.efficiency
            },
{
    let mut r: Vec<TeamScore> = Vec::new();
    let mut i: usize = 0;
    while i < scored.len()
        invariant
            i <= scored.len(),
            r@.len() == i,
            forall|k: int|
                0 <= k < i ==> {
                    &&& (#[trigger] r@[k]).name@ == scored@[k]@.team.name
                    &&& r@[k].total == scored@[k].score.total
                    &&& r@[k].quality == scored@[k].score.quality
                    &&& r@[k].consistency == scored@[k].score.consistency
                    &&& r@[k].efficiency == scored@[k].score.efficiency
                },
        decreases scored.len() - i,
    {
        let s = &scored[i];
        r.push(
            TeamScore {
                name: s.team.name.clone(),
                total: s.score.total,
                quality: s.score.quality,
                consistency: s.score.consistency,
                efficiency: s.score.efficiency,
            },
        );
        i += 1;
    }
    r
}

/// What a generation reports when it is scored.
#[derive(Debug)]
pub struct GenerationReport {
    /// How the generation ended.
    pub outcome: Outcome,
    /// What is to be told of it, in order.
    pub events: Vec<ArenaEvent>,
}

impl View for ArenaRun {
    type V = RunView;

    closed spec fn view(&self) -> RunView {
        RunView {
            population: team_views(self.population@),
            carried: scored_views(self.elite_cache@),
            knowledge: self.knowledge@,
            history: self.history@,
            best: match self.best_ever {
                Some(b) => Some(b@),
                None => None,
            },
            generation: self.generation as nat,
            finished: self.finished,
        }
    }
}

impl ArenaRun {
    /// The settings of the run.
    pub closed spec fn settings(&self) -> Config {
        self.config
    }

    /// The evaluator of the run.
    pub closed spec fn evaluator(&self) -> Orchestrator {
        self.orchestrator
    }

    /// The representation invariant: the settings are valid, the parts are
    /// well formed, and a run that goes on has a generation left.
    pub closed spec fn wf(&self) -> bool {
        &&& self.config.valid()
        &&& self.knowledge.wf()
        &&& self.history.wf()
        &&& self.generation <= self.config.max_generations
        &&& !self.finished ==> self.generation < self.config.max_generations
        &&& self.orchestrator.quality_weight == self.config.quality_weight
        &&& self.orchestrator.consistency_weight == self.config.consistency_weight
        &&& self.orchestrator.efficiency_weight == self.config.efficiency_weight
    }

    /// Starts a run: the first generation is seeded, nothing is known yet,
    /// no team is on record. A run of no generations is over at once.
    pub fn start(config: Config, rng: &mut StdRng) -> (run: Self)
        requires
            config.valid(),
        ensures
            run.wf(),
            run.settings() == config,
            run@.population.len() == config.population_size,
            forall|k: int|
                0 <= k < run@.population.len() ==> crate::evolution::is_seed_team(
                    #[trigger] run@.population[k],
                    k as nat,
                    config.team_size as nat,
                ),
            run@.carried.len() == 0,
            run@.knowledge.insights.len() == 0,
            run@.knowledge.capacity == KNOWLEDGE_CAPACITY,
            run@.history.len() == 0,
            run@.best is None,
            run@.generation == 0,
            run@.finished == (config.max_generations == 0),
    {
        let population = create_initial_population(&config, rng);
        let orchestrator = Orchestrator::new(&config);
        let finished = config.max_generations == 0;
        let run = ArenaRun {
            config,
            orchestrator,
            population,
            elite_cache: Vec::new(),
            knowledge: KnowledgeBase::new(KNOWLEDGE_CAPACITY),
            history: ConclusionHistory::new(),
            best_ever: None,
            generation: 0,
            finished,
        };
        proof {
            assert forall|k: int| 0 <= k < run@.population.len() implies
                crate::evolution::is_seed_team(
                #[trigger] run@.population[k],
                k as nat,
                run.config.team_size as nat,
            ) by {
                assert(run@.population[k] == run.population@[k]@);
            }
        }
        run
    }

    /// The settings of the run.
    pub fn config(&self) -> (r: &Config)
        ensures
            *r == self.settings(),
    {
        &self.config
    }

    /// Whether the run has converged or is exhausted.
    pub fn is_finished(&self) -> (r: bool)
        ensures
            r == self@.finished,
    {
        self.finished
    }

    /// Whether a best team is on record.
    pub fn has_best(&self) -> (r: bool)
        ensures
            r == self@.best is Some,
    {
        self.best_ever.is_some()
    }

    /// The number of generations that were scored.
    pub fn generations_run(&self) -> (r: usize)
        ensures
            r == self@.generation,
    {
        self.generation
    }

    /// The knowledge gathered so far.
    pub fn knowledge(&self) -> (r: &KnowledgeBase)
        ensures
            r@ == self@.knowledge,
    {
        &self.knowledge
    }

    /// The number of elites that are carried over and the number of teams
    /// that are still to be scored in the generation in progress.
    pub fn carried_count(&self) -> (r: usize)
        ensures
            r == self@.carried.len(),
    {
        self.elite_cache.len()
    }

    /// The event that opens the generation in progress.
    pub fn generation_started(&self) -> (e: ArenaEvent)
        requires
            self.wf(),
            !self@.finished,
        ensures
            e matches ArenaEvent::GenerationStarted { gen, total } && gen == self@.generation + 1
                && total == self.settings().max_generations,
    {
        ArenaEvent::GenerationStarted {
            gen: self.generation + 1,
            total: self.config.max_generations,
        }
    }

    /// The teams of the generation in progress that have to be executed:
    /// all but the elites, which bring their output and fitness along.
    pub fn pending_teams(&self) -> (teams: Vec<Team>)
        ensures
            team_views(teams@) == pending_of(
                self@.population,
                self@.carried,
                self@.population.len() as int,
            ),
    {
        let ghost population = team_views(self.population@);
        let ghost carried = scored_views(self.elite_cache@);
        let mut teams: Vec<Team> = Vec::new();
        let mut i: usize = 0;
        while i < self.population.len()
            invariant
                i <= self.population.len(),
                population == team_views(self.population@),
                carried == scored_views(self.elite_cache@),
                team_views(teams@) == pending_of(population, carried, i as int),
            decreases self.population.len() - i,
        {
            let team = &self.population[i];
            proof {
                assert(population[i as int] == team@);
            }
            let mut found = false;
            let mut k: usize = 0;
            while k < self.elite_cache.len() && !found
                invariant
                    k <= self.elite_cache.len(),
                    carried == scored_views(self.elite_cache@),
                    found ==> is_carried(carried, team.id),
                    !found ==> forall|j: int|
                        0 <= j < k ==> (#[trigger] carried[j]).team.id != team.id,
                decreases self.elite_cache.len() - k + (if found {
                    0int
                } else {
                    1
                }),
            {
                proof {
                    assert(carried[k as int] == self.elite_cache@[k as int]@);
                }
                if self.elite_cache[k].team.id == team.id {
                    found = true;
                } else {
                    k += 1;
                }
            }
            if !found {
                let ghost before = team_views(teams@);
                teams.push(team.clone());
                proof {
                    assert(team_views(teams@) =~= before.push(team@));
                }
            }
            i += 1;
        }
        teams
    }

    /// How the quality of a team's output is to be found in the generation
    /// in progress.
    pub fn plan_quality(&self, output: &TeamOutput, problem: &str) -> (plan: QualityPlan)
        ensures
            crate::judge::is_quality_plan(
                plan,
                output@,
                problem@,
                self@.generation as int,
                self.settings().max_tokens,
            ),
    {
        plan_quality(output, problem, self.generation, self.config.max_tokens)
    }

    /// Scores a team's output in the generation in progress, once its
    /// quality is known.
    pub fn score(&self, output: &TeamOutput, quality: u32, judge_critique: String) -> (r:
        FitnessScore)
        requires
            self.wf(),
            output@.agent_outputs.len() <= MAX_OUTPUTS,
        ensures
            r@ == self.evaluator().fitness_of(
                output@,
                quality,
                judge_critique@,
                self.settings().max_tokens,
                self@.generation,
                self.settings().max_generations as nat,
                self@.history,
            ),
            r.total <= 10_000_000,
    {
        self.orchestrator.evaluate(
            output,
            quality,
            judge_critique,
            &self.config,
            self.generation,
            &self.history,
        )
    }

    /// Takes the scores of the teams that were executed and ends the
    /// generation. The carried elites and the new scores are ranked; every
    /// team is put on record in the history; the best team so far is kept.
    /// If the best total reaches the threshold the run has converged; if
    /// this was the last generation the run is exhausted. Else the knowledge
    /// base is fed from the critiques and from conflicts between teams, and
    /// the next generation is bred.
    pub fn complete_generation(&mut self, new_scored: Vec<ScoredTeam>, rng: &mut StdRng) -> (report:
        GenerationReport)
        requires
            old(self).wf(),
            !old(self)@.finished,
            old(self)@.carried.len() + new_scored@.len() > 0,
        ensures
            final(self).wf(),
            final(self).settings() == old(self).settings(),
            final(self).evaluator() == old(self).evaluator(),
            ({
                let before = old(self)@;
                let after = final(self)@;
                let config = old(self).settings();
                let ranking = ranked(before.carried + scored_views(new_scored@));
                let top = ranking[0];
                let outcome = outcome_of(
                    top.score.total,
                    before.generation,
                    config.fitness_threshold,
                    config.max_generations,
                );
                &&& report.outcome == outcome
                &&& after.generation == before.generation + 1
                &&& after.finished == (outcome != Outcome::Evolved)
                &&& after.history == history_after(before.history, ranking, ranking.len() as int)
                &&& after.best == best_after(before.best, top)
                &&& after.knowledge == (if outcome == Outcome::Evolved {
                    knowledge_after(before.knowledge, ranking)
                } else {
                    before.knowledge
                })
                &&& outcome != Outcome::Evolved ==> after.population == before.population
                    && after.carried.len() == 0
                &&& outcome == Outcome::Evolved ==> exists|
                    members: Seq<crate::evolution::MemberView>,
                    left: Seq<ScoredTeamView>,
                |
                    #[trigger] is_next_generation(
                        members,
                        left,
                        ranking,
                        config.elite_count,
                        config.population_size,
                        config.team_size,
                        config.mutation_rate,
                        after.generation as usize,
                        after.knowledge.insights,
                    ) && after.population == member_teams(members) && after.carried == carried_of(
                        members,
                        members.len() as int,
                    )
            }),
            report.events@.len() == (if report.outcome == Outcome::Exhausted {
                1int
            } else {
                2
            }),
            reports_ranking(
                report.events@[0],
                final(self)@.generation,
                ranked(old(self)@.carried + scored_views(new_scored@)),
            ),
            report.outcome != Outcome::Exhausted ==> reports_outcome(
                report.events@[1],
                report.outcome,
                final(self)@.generation,
                ranked(old(self)@.carried + scored_views(new_scored@))[0].score.total,
                old(self).settings(),
            ),
    {
        let ghost before = self@;
        let ghost merged = before.carried + scored_views(new_scored@);
        let mut scored: Vec<ScoredTeam> = Vec::new();
        let mut fresh = new_scored;
        scored.append(&mut self.elite_cache);
        scored.append(&mut fresh);
        proof {
            assert(scored_views(scored@) =~= merged);
            crate::evolution::law_ranking_orders_by_total(merged);
        }
        rank(&mut scored);
        let ghost ranking = ranked(merged);
        let ghost top = ranking[0];
        proof {
            assert(ranking[0] == scored@[0]@);
        }
        let best_total = scored[0].score.total;
        let mut events: Vec<ArenaEvent> = Vec::new();
        events.push(
            ArenaEvent::GenerationComplete {
                gen: self.generation + 1,
                scores: report_scores(&scored),
                best_name: scored[0].team.name.clone(),
                best_score: best_total,
            },
        );
        let mut i: usize = 0;
        while i < scored.len()
            invariant
                i <= scored.len(),
                self.history.wf(),
                ranking == scored_views(scored@),
                self.history@ == history_after(before.history, ranking, i as int),
                self.config == old(self).config,
                self.orchestrator == old(self).orchestrator,
                self.knowledge == old(self).knowledge,
                self.population == old(self).population,
                self.best_ever == old(self).best_ever,
                self.generation == old(self).generation,
                self.finished == old(self).finished,
                self.elite_cache@.len() == 0,
            decreases scored.len() - i,
        {
            proof {
                assert(ranking[i as int] == scored@[i as int]@);
            }
            self.history.record(&scored[i].output, scored[i].score.total);
            i += 1;
        }
        let improved = match &self.best_ever {
            Some(b) => best_total > b.score.total,
            None => true,
        };
        if improved {
            self.best_ever = Some(scored[0].clone());
        }
        proof {
            assert(self@.best == best_after(before.best, top));
            assert(self@.carried =~= Seq::<ScoredTeamView>::empty());
        }
        if best_total >= self.config.fitness_threshold {
            events.push(ArenaEvent::Converged { gen: self.generation + 1, score: best_total });
            self.generation = self.generation + 1;
            self.finished = true;
            return GenerationReport { outcome: Outcome::Converged, events };
        }
        if self.generation + 1 >= self.config.max_generations {
            self.generation = self.generation + 1;
            self.finished = true;
            return GenerationReport { outcome: Outcome::Exhausted, events };
        }
        let mut k: usize = 0;
        while k < scored.len()
            invariant
                k <= scored.len(),
                self.knowledge.wf(),
                ranking == scored_views(scored@),
                self.knowledge@ == after_critiques(before.knowledge, ranking, k as int),
                self.config == old(self).config,
                self.orchestrator == old(self).orchestrator,
                self.history@ == history_after(before.history, ranking, ranking.len() as int),
                self.history.wf(),
                self.population == old(self).population,
                self@.best == best_after(before.best, top),
                self.generation == old(self).generation,
                self.finished == old(self).finished,
                self.elite_cache@.len() == 0,
            decreases scored.len() - k,
        {
            proof {
                assert(ranking[k as int] == scored@[k as int]@);
            }
            self.knowledge.extract_from_critique(scored[k].score.judge_critique.as_str());
            k += 1;
        }
        let mut pairs: Vec<(String, &TeamOutput)> = Vec::new();
        let mut p: usize = 0;
        while p < scored.len()
            invariant
                p <= scored.len(),
                pairs@.len() == p,
                ranking == scored_views(scored@),
                forall|j: int|
                    0 <= j < p ==> (#[trigger] pairs@[j]).0@ == ranking[j].team.name && pairs@[j].1@
                        == ranking[j].output,
            decreases scored.len() - p,
        {
            proof {
                assert(ranking[p as int] == scored@[p as int]@);
            }
            pairs.push((scored[p].team.name.clone(), &scored[p].output));
            p += 1;
        }
        proof {
            assert(crate::knowledge::named_output_views(pairs@) =~= named_outputs(ranking));
        }
        self.knowledge.extract_conflicts(pairs.as_slice());
        proof {
            assert(self@.knowledge == knowledge_after(before.knowledge, ranking));
        }
        events.push(
            ArenaEvent::Evolving {
                kept: self.config.elite_count,
                spawning: self.config.population_size - self.config.elite_count,
            },
        );
        let members = next_generation(
            &mut scored,
            &self.config,
            self.generation + 1,
            &self.knowledge,
            rng,
        );
        let ghost member_list = crate::evolution::member_views(members@);
        let ghost left = scored_views(scored@);
        let mut population: Vec<Team> = Vec::new();
        let mut cache: Vec<ScoredTeam> = Vec::new();
        let mut m: usize = 0;
        while m < members.len()
            invariant
                m <= members.len(),
                member_list == crate::evolution::member_views(members@),
                population@.len() == m,
                forall|j: int|
                    0 <= j < m ==> (#[trigger] population@[j])@ == member_list[j].team,
                scored_views(cache@) == carried_of(member_list, m as int),
            decreases members.len() - m,
        {
            let member = &members[m];
            proof {
                assert(member_list[m as int] == member@);
            }
            population.push(member.team.clone());
            match &member.cached {
                Some((output, score)) => {
                    let ghost earlier = scored_views(cache@);
                    cache.push(
                        ScoredTeam {
                            team: member.team.clone(),
                            output: output.clone(),
                            score: score.clone(),
                        },
                    );
                    proof {
                        assert(scored_views(cache@) =~= earlier.push(
                            ScoredTeamView {
                                team: member@.team,
                                output: output@,
                                score: score@,
                            },
                        ));
                    }
                },
                None => {},
            }
            m += 1;
        }
        self.population = population;
        self.elite_cache = cache;
        self.generation = self.generation + 1;
        proof {
            assert(self@.population =~= member_teams(member_list));
            assert(is_next_generation(
                member_list,
                left,
                ranking,
                self.config.elite_count,
                self.config.population_size,
                self.config.team_size,
                self.config.mutation_rate,
                self@.generation as usize,
                self@.knowledge.insights,
            ));
        }
        GenerationReport { outcome: Outcome::Evolved, events }
    }

    /// The request for the final answer: the judge model is shown every
    /// answer of the best team and asked for one unified answer.
    pub fn synthesis_request(&self, problem: &str) -> (r: ChatRequest)
        requires
            self@.best is Some,
        ensures
            r.system_prompt@ == SYNTHESIS_SYSTEM@,
            r.user_message@ == synthesis_message_of(problem@, self@.best->0.output),
            r.temperature == SYNTHESIS_TEMPERATURE,
            r.top_p == 1_000_000,
            r.max_tokens == synthesis_budget(self.settings().max_tokens),
    {
        let best = self.best_ever.as_ref().unwrap();
        let mut message = chars_of(SYNTHESIS_OPENING);
        push_str_chars(&mut message, problem);
        push_str_chars(&mut message, SYNTHESIS_ANALYSES);
        let blocks = render_outputs(&best.output.agent_outputs);
        push_chars(&mut message, &blocks);
        push_str_chars(&mut message, SYNTHESIS_CLOSING);
        ChatRequest {
            system_prompt: string_of(&chars_of(SYNTHESIS_SYSTEM)),
            user_message: string_of(&message),
            temperature: SYNTHESIS_TEMPERATURE,
            top_p: 1_000_000,
            max_tokens: if self.config.max_tokens > u32::MAX / 4 {
                u32::MAX
            } else {
                self.config.max_tokens * 4
            },
        }
    }

    /// The result of the run, once the final answer is there: the best team
    /// with its output and fitness, the answer, and the number of
    /// generations that were run.
    pub fn finish(self, synthesis: String) -> (r: EvolutionResult)
        requires
            self@.best is Some,
        ensures
            r.best_team@ == self@.best->0.team,
            r.best_output@ == self@.best->0.output,
            r.best_score@ == self@.best->0.score,
            r.synthesis@ == synthesis@,
            r.generations_run == self@.generation,
    {
        let generations_run = self.generation;
        let best = self.best_ever.unwrap();
        EvolutionResult {
            best_team: best.team,
            best_output: best.output,
            best_score: best.score,
            synthesis,
            generations_run,
        }
    }
}

} // verus!
