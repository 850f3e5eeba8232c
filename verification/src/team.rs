//! Teams and the two-phase protocol by which a team is executed: the
//! standard agents answer the problem, then the red-team agents audit their
//! answers.
//!
//! The model calls are made by the caller. This module decides which agents
//! run next and on what prompt, and assembles the team's output from what
//! came back.

use vstd::prelude::*;
use crate::agent::{
    agent_views, clone_agents, clone_outputs, output_views, Agent, AgentOutput, AgentOutputView,
    AgentView,
};
use crate::text::{
    chars_of, clone_strings, has_subseq, lemma_occurs_between, lemma_occurs_within, occurs_at,
    push_chars, push_str_chars, string_of, string_views,
};

verus! {

/// What stands between the problem and the other agents' answers in the
/// prompt of a red-team agent.
pub const RED_TEAM_BRIEFING: &'static str =
    "\n\n\
     === Other Agents' Responses (Your Task: Find Flaws) ===\n\
     The following agents on your team have already answered. \
     Your job is to rigorously check their logic, find any \
     contradictions, false assumptions, or errors, and present \
     a corrected analysis if needed.\n\n";

/// The mathematical content of a [`Team`].
pub ghost struct TeamView {
    pub id: u128,
    pub name: Seq<char>,
    pub agents: Seq<AgentView>,
    pub generation: usize,
}

/// A group of agents that answers together: the standard agents first, the
/// red-team agent, if any, last.
#[derive(Debug)]
pub struct Team {
    pub id: u128,
    pub name: String,
    pub agents: Vec<Agent>,
    pub generation: usize,
}

impl View for Team {
    type V = TeamView;

    open spec fn view(&self) -> TeamView {
        TeamView {
            id: self.id,
            name: self.name@,
            agents: agent_views(self.agents@),
            generation: self.generation,
        }
    }
}

impl Clone for Team {
    fn clone(&self) -> (r: Self)
        ensures
            r@ == self@,
    {
        Team {
            id: self.id,
            name: self.name.clone(),
            agents: clone_agents(&self.agents),
            generation: self.generation,
        }
    }
}

/// The mathematical content of a [`TeamOutput`].
pub ghost struct TeamOutputView {
    pub team_id: u128,
    pub team_name: Seq<char>,
    pub agent_outputs: Seq<AgentOutputView>,
    pub total_tokens: u32,
    pub total_elapsed: u128,
    pub warnings: Seq<Seq<char>>,
}

/// What a team produced: the outputs of the agents that succeeded, standard
/// agents first, and a warning for each agent that failed.
#[derive(Debug)]
pub struct TeamOutput {
    pub team_id: u128,
    pub team_name: String,
    pub agent_outputs: Vec<AgentOutput>,
    pub total_tokens: u32,
    pub total_elapsed: u128,
    pub warnings: Vec<String>,
}

impl View for TeamOutput {
    type V = TeamOutputView;

    open spec fn view(&self) -> TeamOutputView {
        TeamOutputView {
            team_id: self.team_id,
            team_name: self.team_name@,
            agent_outputs: output_views(self.agent_outputs@),
            total_tokens: self.total_tokens,
            total_elapsed: self.total_elapsed,
            warnings: string_views(self.warnings@),
        }
    }
}

impl Clone for TeamOutput {
    fn clone(&self) -> (r: Self)
        ensures
            r@ == self@,
    {
        TeamOutput {
            team_id: self.team_id,
            team_name: self.team_name.clone(),
            agent_outputs: clone_outputs(&self.agent_outputs),
            total_tokens: self.total_tokens,
            total_elapsed: self.total_elapsed,
            warnings: clone_strings(&self.warnings),
        }
    }
}

/// The positions, among the first `upto` agents, of those whose red-team
/// flag is `red`, in order.
pub open spec fn members(agents: Seq<AgentView>, red: bool, upto: int) -> Seq<usize>
    decreases upto,
{
    if upto <= 0 {
        Seq::empty()
    } else {
        let before = members(agents, red, upto - 1);
        if agents[upto - 1].genotype.is_red_team == red {
            before.push((upto - 1) as usize)
        } else {
            before
        }
    }
}

/// The positions of the standard agents of a team.
pub open spec fn standard_members(team: TeamView) -> Seq<usize> {
    members(team.agents, false, team.agents.len() as int)
}

/// The positions of the red-team agents of a team.
pub open spec fn red_team_members(team: TeamView) -> Seq<usize> {
    members(team.agents, true, team.agents.len() as int)
}

/// The block in which one output is shown to a reader of several: a header
/// with the genotype's name and the strategy, then the content.
pub open spec fn output_block(o: AgentOutputView) -> Seq<char> {
    "--- "@ + o.genotype_name + " ("@ + o.strategy.label_text() + ") ---\n"@ + o.content
        + "\n\n"@
}

/// The blocks of the first `upto` outputs, one after another.
pub open spec fn output_blocks(outputs: Seq<AgentOutputView>, upto: int) -> Seq<char>
    decreases upto,
{
    if upto <= 0 {
        Seq::empty()
    } else {
        output_blocks(outputs, upto - 1) + output_block(outputs[upto - 1])
    }
}

/// The prompt of the red-team phase: the problem, the briefing, and the
/// answer of every standard agent that succeeded.
pub open spec fn red_team_prompt_of(problem: Seq<char>, outputs: Seq<AgentOutputView>) -> Seq<
    char,
> {
    problem + RED_TEAM_BRIEFING@ + output_blocks(outputs, outputs.len() as int)
}

/// What one agent's execution came to: its output, or the text of its
/// failure.
pub open spec fn result_view(r: Result<AgentOutput, String>) -> Result<
    AgentOutputView,
    Seq<char>,
> {
    match r {
        Ok(o) => Ok(o@),
        Err(e) => Err(e@),
    }
}

/// The views of a vector of results.
pub open spec fn result_views(results: Seq<Result<AgentOutput, String>>) -> Seq<
    Result<AgentOutputView, Seq<char>>,
> {
    Seq::new(results.len(), |i: int| result_view(results[i]))
}

/// The warning recorded for an agent that failed.
pub open spec fn failure_warning(team_name: Seq<char>, error: Seq<char>, red: bool) -> Seq<char> {
    (if red {
        "Red-team agent failed in "@
    } else {
        "Agent failed in "@
    }) + team_name + ": "@ + error
}

/// The outputs among the first `upto` results, in order.
pub open spec fn successes(results: Seq<Result<AgentOutputView, Seq<char>>>, upto: int) -> Seq<
    AgentOutputView,
>
    decreases upto,
{
    if upto <= 0 {
        Seq::empty()
    } else {
        let before = successes(results, upto - 1);
        match results[upto - 1] {
            Ok(o) => before.push(o),
            Err(_) => before,
        }
    }
}

/// The warnings for the failures among the first `upto` results, in order.
pub open spec fn failures(
    team_name: Seq<char>,
    results: Seq<Result<AgentOutputView, Seq<char>>>,
    red: bool,
    upto: int,
) -> Seq<Seq<char>>
    decreases upto,
{
    if upto <= 0 {
        Seq::empty()
    } else {
        let before = failures(team_name, results, red, upto - 1);
        match results[upto - 1] {
            Ok(_) => before,
            Err(e) => before.push(failure_warning(team_name, e, red)),
        }
    }
}

/// The tokens that the first `upto` outputs used, added up.
pub open spec fn token_sum(outputs: Seq<AgentOutputView>, upto: int) -> nat
    decreases upto,
{
    if upto <= 0 {
        0
    } else {
        token_sum(outputs, upto - 1) + outputs[upto - 1].tokens_used as nat
    }
}

/// The tokens that a team used: the sum over its outputs, capped at the
/// largest count that fits.
pub open spec fn total_tokens_of(outputs: Seq<AgentOutputView>) -> u32 {
    let sum = token_sum(outputs, outputs.len() as int);
    if sum > u32::MAX {
        u32::MAX
    } else {
        sum as u32
    }
}

/// The longest time that one of the first `upto` outputs took; zero if
/// there is none.
pub open spec fn longest_elapsed(outputs: Seq<AgentOutputView>, upto: int) -> u128
    decreases upto,
{
    if upto <= 0 {
        0
    } else {
        let before = longest_elapsed(outputs, upto - 1);
        if outputs[upto - 1].elapsed > before {
            outputs[upto - 1].elapsed
        } else {
            before
        }
    }
}

/// The output of a team whose agents produced `outputs` and `warnings`: the
/// tokens are summed, the elapsed time is that of the slowest agent, since
/// the agents run side by side.
pub open spec fn assembled(
    team: TeamView,
    outputs: Seq<AgentOutputView>,
    warnings: Seq<Seq<char>>,
) -> TeamOutputView {
    TeamOutputView {
        team_id: team.id,
        team_name: team.name,
        agent_outputs: outputs,
        total_tokens: total_tokens_of(outputs),
        total_elapsed: longest_elapsed(outputs, outputs.len() as int),
        warnings,
    }
}

/// The mathematical content of a [`TeamExecution`].
pub ghost struct TeamExecutionView {
    pub red_phase: bool,
    pub outputs: Seq<AgentOutputView>,
    pub warnings: Seq<Seq<char>>,
}

/// A team's execution between two phases: what was collected so far, and
/// whether the phase that is running is the red-team phase.
#[derive(Debug)]
pub struct TeamExecution {
    red_phase: bool,
    outputs: Vec<AgentOutput>,
    warnings: Vec<String>,
}

impl View for TeamExecution {
    type V = TeamExecutionView;

    closed spec fn view(&self) -> TeamExecutionView {
        TeamExecutionView {
            red_phase: self.red_phase,
            outputs: output_views(self.outputs@),
            warnings: string_views(self.warnings@),
        }
    }
}

/// What the caller does next for a team.
#[derive(Debug)]
pub enum TeamStep {
    /// Run the agents at these positions of the team, side by side, each on
    /// this prompt, and hand the results back in the same order.
    Run { state: TeamExecution, agents: Vec<usize>, prompt: String },
    /// The team is done.
    Finished(TeamOutput),
}

/// The step that follows a phase which left `outputs` and `warnings`: the
/// red-team phase if the standard phase has just ended, the team has a
/// red-team agent and some standard agent succeeded; else the end.
pub open spec fn next_step_is_red(team: TeamView, was_red: bool, outputs: Seq<AgentOutputView>)
    -> bool {
    !was_red && red_team_members(team).len() > 0 && outputs.len() > 0
}

/// No result is lost: every result of a phase is either an output or a
/// warning.
pub proof fn law_every_result_is_accounted_for(
    team_name: Seq<char>,
    results: Seq<Result<AgentOutputView, Seq<char>>>,
    red: bool,
    upto: int,
)
    requires
        0 <= upto <= results.len(),
    ensures
        successes(results, upto).len() + failures(team_name, results, red, upto).len() == upto,
    decreases upto,
{
    if upto > 0 {
        law_every_result_is_accounted_for(team_name, results, red, upto - 1);
    }
}

/// Every output that a red-team prompt was built from stands in it
/// verbatim.
pub proof fn law_red_team_prompt_quotes_outputs(
    problem: Seq<char>,
    outputs: Seq<AgentOutputView>,
    i: int,
)
    requires
        0 <= i < outputs.len(),
    ensures
        has_subseq(red_team_prompt_of(problem, outputs), outputs[i].content),
{
    let n = outputs.len() as int;
    lemma_block_occurs(outputs, i, n);
    let blocks = output_blocks(outputs, n);
    let whole = red_team_prompt_of(problem, outputs);
    lemma_occurs_between(problem + RED_TEAM_BRIEFING@, blocks, Seq::empty());
    assert(problem + RED_TEAM_BRIEFING@ + blocks + Seq::<char>::empty() =~= whole);
    lemma_occurs_within(
        whole,
        blocks,
        output_block(outputs[i]),
        (problem + RED_TEAM_BRIEFING@).len() as int,
        output_blocks(outputs, i).len() as int,
    );
    let o = outputs[i];
    let header = "--- "@ + o.genotype_name + " ("@ + o.strategy.label_text() + ") ---\n"@;
    lemma_occurs_between(header, o.content, "\n\n"@);
    assert(header + o.content + "\n\n"@ =~= output_block(o));
    lemma_occurs_within(
        whole,
        output_block(o),
        o.content,
        ((problem + RED_TEAM_BRIEFING@).len() + output_blocks(outputs, i).len()) as int,
        header.len() as int,
    );
}

/// The block of the `i`-th output stands in the blocks of the first `upto`
/// outputs, right after the blocks of the outputs before it.
pub proof fn lemma_block_occurs(outputs: Seq<AgentOutputView>, i: int, upto: int)
    requires
        0 <= i < upto,
    ensures
        occurs_at(
            output_blocks(outputs, upto),
            output_block(outputs[i]),
            output_blocks(outputs, i).len() as int,
        ),
    decreases upto,
{
    let block = output_block(outputs[i]);
    let at = output_blocks(outputs, i).len() as int;
    if i == upto - 1 {
        lemma_occurs_between(output_blocks(outputs, i), block, Seq::empty());
        assert(output_blocks(outputs, i) + block + Seq::<char>::empty() =~= output_blocks(
            outputs,
            upto,
        ));
    } else {
        lemma_block_occurs(outputs, i, upto - 1);
        let shorter = output_blocks(outputs, upto - 1);
        let longer = output_blocks(outputs, upto);
        assert(longer.subrange(at, at + block.len()) =~= shorter.subrange(at, at + block.len()));
    }
}

/// The blocks of all of `outputs`, one after another.
pub fn render_outputs(outputs: &Vec<AgentOutput>) -> (r: Vec<char>)
    ensures
        r@ == output_blocks(output_views(outputs@), outputs@.len() as int),
{
    let mut r: Vec<char> = Vec::new();
    let ghost views = output_views(outputs@);
    let mut i: usize = 0;
    while i < outputs.len()
        invariant
            i <= outputs.len(),
            views == output_views(outputs@),
            r@ == output_blocks(views, i as int),
        decreases outputs.len() - i,
    {
        let o = &outputs[i];
        let ghost before = r@;
        push_str_chars(&mut r, "--- ");
        push_str_chars(&mut r, o.genotype_name.as_str());
        push_str_chars(&mut r, " (");
        push_str_chars(&mut r, o.strategy.label());
        push_str_chars(&mut r, ") ---\n");
        push_str_chars(&mut r, o.content.as_str());
        push_str_chars(&mut r, "\n\n");
        proof {
            assert(views[i as int] == o@);
            assert(r@ == before + output_block(views[i as int]));
        }
        i += 1;
    }
    r
}

/// The prompt of the red-team phase.
pub fn red_team_prompt(problem: &str, outputs: &Vec<AgentOutput>) -> (r: String)
    ensures
        r@ == red_team_prompt_of(problem@, output_views(outputs@)),
{
    let mut p = chars_of(problem);
    push_str_chars(&mut p, RED_TEAM_BRIEFING);
    let blocks = render_outputs(outputs);
    push_chars(&mut p, &blocks);
    string_of(&p)
}

/// Adds the outcome of a phase to what was collected: each output in order,
/// and a warning for each failure.
pub fn record_results(
    team_name: &str,
    results: &Vec<Result<AgentOutput, String>>,
    red: bool,
    outputs: &mut Vec<AgentOutput>,
    warnings: &mut Vec<String>,
)
    ensures
        output_views(final(outputs)@) == output_views(old(outputs)@) + successes(
            result_views(results@),
            results@.len() as int,
        ),
        string_views(final(warnings)@) == string_views(old(warnings)@) + failures(
            team_name@,
            result_views(results@),
            red,
            results@.len() as int,
        ),
{
    let ghost views = result_views(results@);
    let ghost outputs_before = output_views(outputs@);
    let ghost warnings_before = string_views(warnings@);
    let mut i: usize = 0;
    while i < results.len()
        invariant
            i <= results.len(),
            views == result_views(results@),
            output_views(outputs@) == outputs_before + successes(views, i as int),
            string_views(warnings@) == warnings_before + failures(
                team_name@,
                views,
                red,
                i as int,
            ),
        decreases results.len() - i,
    {
        let ghost outputs_now = output_views(outputs@);
        let ghost warnings_now = string_views(warnings@);
        proof {
            assert(views[i as int] == result_view(results@[i as int]));
        }
        match &results[i] {
            Ok(output) => {
                outputs.push(output.clone());
                proof {
                    assert(output_views(outputs@) =~= outputs_now.push(output@));
                    assert(output_views(outputs@) =~= outputs_before + successes(views, i + 1));
                }
            },
            Err(error) => {
                let mut w = if red {
                    chars_of("Red-team agent failed in ")
                } else {
                    chars_of("Agent failed in ")
                };
                push_str_chars(&mut w, team_name);
                push_str_chars(&mut w, ": ");
                push_str_chars(&mut w, error.as_str());
                let warning = string_of(&w);
                warnings.push(warning);
                proof {
                    assert(string_views(warnings@) =~= warnings_now.push(
                        failure_warning(team_name@, error@, red),
                    ));
                    assert(string_views(warnings@) =~= warnings_before + failures(
                        team_name@,
                        views,
                        red,
                        i + 1,
                    ));
                }
            },
        }
        i += 1;
    }
}

/// The tokens that a team used.
pub fn total_tokens(outputs: &Vec<AgentOutput>) -> (r: u32)
    ensures
        r == total_tokens_of(output_views(outputs@)),
{
    let ghost views = output_views(outputs@);
    let mut total: u32 = 0;
    let mut i: usize = 0;
    while i < outputs.len()
        invariant
            i <= outputs.len(),
            views == output_views(outputs@),
            total == (if token_sum(views, i as int) > u32::MAX {
                u32::MAX
            } else {
                token_sum(views, i as int) as u32
            }),
        decreases outputs.len() - i,
    {
        proof {
            assert(views[i as int] == outputs@[i as int]@);
        }
        total = total.saturating_add(outputs[i].tokens_used);
        i += 1;
    }
    total
}

/// The time that the slowest agent took.
pub fn slowest(outputs: &Vec<AgentOutput>) -> (r: u128)
    ensures
        r == longest_elapsed(output_views(outputs@), outputs@.len() as int),
{
    let ghost views = output_views(outputs@);
    let mut longest: u128 = 0;
    let mut i: usize = 0;
    while i < outputs.len()
        invariant
            i <= outputs.len(),
            views == output_views(outputs@),
            longest == longest_elapsed(views, i as int),
        decreases outputs.len() - i,
    {
        proof {
            assert(views[i as int] == outputs@[i as int]@);
        }
        if outputs[i].elapsed > longest {
            longest = outputs[i].elapsed;
        }
        i += 1;
    }
    longest
}

impl Team {
    /// The positions of the agents whose red-team flag is `red`.
    pub fn members_with(&self, red: bool) -> (r: Vec<usize>)
        ensures
            r@ == members(self@.agents, red, self@.agents.len() as int),
    {
        let ghost views = agent_views(self.agents@);
        let mut r: Vec<usize> = Vec::new();
        let mut i: usize = 0;
        while i < self.agents.len()
            invariant
                i <= self.agents.len(),
                views == agent_views(self.agents@),
                r@ == members(views, red, i as int),
            decreases self.agents.len() - i,
        {
            proof {
                assert(views[i as int] == self.agents@[i as int]@);
            }
            if self.agents[i].genotype.is_red_team == red {
                r.push(i);
            }
            i += 1;
        }
        r
    }

    /// The output of the team once its agents have produced `outputs` and
    /// `warnings`.
    pub fn assemble(&self, outputs: Vec<AgentOutput>, warnings: Vec<String>) -> (r: TeamOutput)
        ensures
            r@ == assembled(self@, output_views(outputs@), string_views(warnings@)),
    {
        let total = total_tokens(&outputs);
        let longest = slowest(&outputs);
        TeamOutput {
            team_id: self.id,
            team_name: self.name.clone(),
            agent_outputs: outputs,
            total_tokens: total,
            total_elapsed: longest,
            warnings,
        }
    }

    /// Begins the execution of the team on a problem: the standard agents
    /// run first, on the problem as it is.
    pub fn begin(&self, problem: &str) -> (step: TeamStep)
        ensures
            step matches TeamStep::Run { state, agents, prompt } && {
                &&& !state@.red_phase
                &&& state@.outputs.len() == 0
                &&& state@.warnings.len() == 0
                &&& agents@ == standard_members(self@)
                &&& prompt@ == problem@
            },
    {
        let state = TeamExecution { red_phase: false, outputs: Vec::new(), warnings: Vec::new() };
        TeamStep::Run {
            state,
            agents: self.members_with(false),
            prompt: string_of(&chars_of(problem)),
        }
    }

    /// Takes the results of the phase that has just run. After the standard
    /// phase the red-team agents run next, on the problem and every answer
    /// that came in, if the team has such agents and some answer came in;
    /// otherwise, and after the red-team phase, the team is done. A failure
    /// becomes a warning and never ends the execution.
    pub fn resume(
        &self,
        state: TeamExecution,
        problem: &str,
        results: &Vec<Result<AgentOutput, String>>,
    ) -> (step: TeamStep)
        ensures
            ({
                let views = result_views(results@);
                let outputs = state@.outputs + successes(views, views.len() as int);
                let warnings = state@.warnings + failures(
                    self@.name,
                    views,
                    state@.red_phase,
                    views.len() as int,
                );
                if next_step_is_red(self@, state@.red_phase, outputs) {
                    step matches TeamStep::Run { state: next, agents, prompt } && {
                        &&& next@ == (TeamExecutionView { red_phase: true, outputs, warnings })
                        &&& agents@ == red_team_members(self@)
                        &&& prompt@ == red_team_prompt_of(problem@, outputs)
                    }
                } else {
                    step matches TeamStep::Finished(output) && output@ == assembled(
                        self@,
                        outputs,
                        warnings,
                    )
                }
            }),
    {
        let TeamExecution { red_phase, mut outputs, mut warnings } = state;
        record_results(self.name.as_str(), results, red_phase, &mut outputs, &mut warnings);
        let red = self.members_with(true);
        if !red_phase && red.len() > 0 && outputs.len() > 0 {
            let prompt = red_team_prompt(problem, &outputs);
            TeamStep::Run {
                state: TeamExecution { red_phase: true, outputs, warnings },
                agents: red,
                prompt,
            }
        } else {
            TeamStep::Finished(self.assemble(outputs, warnings))
        }
    }
}

} // verus!
