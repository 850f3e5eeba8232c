//! Agents: one genotype bound to an identity, the request it sends to the
//! model and the output it packages from the answer.

use vstd::prelude::*;
use crate::chance::fresh_id;
use crate::config::Config;
use crate::genotype::{system_prompt_of, Genotype, GenotypeView, ReasoningStrategy};
use crate::llm::{ChatRequest, LlmResponse};
use crate::text::{chars_of, string_of};

verus! {

/// The mathematical content of an [`Agent`].
pub ghost struct AgentView {
    pub id: u128,
    pub genotype: GenotypeView,
}

/// One genotype under an identity of its own.
#[derive(Debug)]
pub struct Agent {
    pub id: u128,
    pub genotype: Genotype,
}

impl View for Agent {
    type V = AgentView;

    open spec fn view(&self) -> AgentView {
        AgentView { id: self.id, genotype: self.genotype@ }
    }
}

impl Clone for Agent {
    fn clone(&self) -> (r: Self)
        ensures
            r@ == self@,
    {
        Agent { id: self.id, genotype: self.genotype.clone() }
    }
}

/// The mathematical content of an [`AgentOutput`].
pub ghost struct AgentOutputView {
    pub agent_id: u128,
    pub genotype_name: Seq<char>,
    pub strategy: ReasoningStrategy,
    pub content: Seq<char>,
    pub tokens_used: u32,
    pub elapsed: u128,
}

/// What one agent produced in one execution. The elapsed time is in
/// nanoseconds.
#[derive(Debug)]
pub struct AgentOutput {
    pub agent_id: u128,
    pub genotype_name: String,
    pub strategy: ReasoningStrategy,
    pub content: String,
    pub tokens_used: u32,
    pub elapsed: u128,
}

impl View for AgentOutput {
    type V = AgentOutputView;

    open spec fn view(&self) -> AgentOutputView {
        AgentOutputView {
            agent_id: self.agent_id,
            genotype_name: self.genotype_name@,
            strategy: self.strategy,
            content: self.content@,
            tokens_used: self.tokens_used,
            elapsed: self.elapsed,
        }
    }
}

impl Clone for AgentOutput {
    fn clone(&self) -> (r: Self)
        ensures
            r@ == self@,
    {
        AgentOutput {
            agent_id: self.agent_id,
            genotype_name: self.genotype_name.clone(),
            strategy: self.strategy,
            content: self.content.clone(),
            tokens_used: self.tokens_used,
            elapsed: self.elapsed,
        }
    }
}

/// The views of a vector of agents.
pub open spec fn agent_views(agents: Seq<Agent>) -> Seq<AgentView> {
    Seq::new(agents.len(), |i: int| agents[i]@)
}

/// The views of a vector of outputs.
pub open spec fn output_views(outputs: Seq<AgentOutput>) -> Seq<AgentOutputView> {
    Seq::new(outputs.len(), |i: int| outputs[i]@)
}

/// A copy of a vector of agents.
pub fn clone_agents(agents: &Vec<Agent>) -> (r: Vec<Agent>)
    ensures
        agent_views(r@) == agent_views(agents@),
        r@.len() == agents@.len(),
{
    let mut r: Vec<Agent> = Vec::new();
    let mut i: usize = 0;
    while i < agents.len()
        invariant
            i <= agents.len(),
            r@.len() == i,
            forall|k: int| 0 <= k < i ==> (#[trigger] r@[k])@ == agents@[k]@,
        decreases agents.len() - i,
    {
        r.push(agents[i].clone());
        i += 1;
    }
    proof {
        assert(agent_views(r@) =~= agent_views(agents@));
    }
    r
}

/// A copy of a vector of outputs.
pub fn clone_outputs(outputs: &Vec<AgentOutput>) -> (r: Vec<AgentOutput>)
    ensures
        output_views(r@) == output_views(outputs@),
        r@.len() == outputs@.len(),
{
    let mut r: Vec<AgentOutput> = Vec::new();
    let mut i: usize = 0;
    while i < outputs.len()
        invariant
            i <= outputs.len(),
            r@.len() == i,
            forall|k: int| 0 <= k < i ==> (#[trigger] r@[k])@ == outputs@[k]@,
        decreases outputs.len() - i,
    {
        r.push(outputs[i].clone());
        i += 1;
    }
    proof {
        assert(output_views(r@) =~= output_views(outputs@));
    }
    r
}

impl Agent {
    /// An agent of the given genotype under a fresh identity.
    pub fn new(genotype: Genotype) -> (agent: Self)
        ensures
            agent.genotype == genotype,
            agent@.genotype == genotype@,
    {
        Agent { id: fresh_id(), genotype }
    }

    /// The one request that the agent sends for a problem: its system
    /// prompt, the problem as the user's message, the genotype's sampling
    /// parameters and the configured token budget.
    pub fn request(&self, problem: &str, config: &Config) -> (r: ChatRequest)
        ensures
            r.system_prompt@ == system_prompt_of(self@.genotype),
            r.user_message@ == problem@,
            r.temperature == self.genotype.temperature,
            r.top_p == self.genotype.top_p,
            r.max_tokens == config.max_tokens,
    {
        ChatRequest {
            system_prompt: self.genotype.build_system_prompt(),
            user_message: string_of(&chars_of(problem)),
            temperature: self.genotype.temperature,
            top_p: self.genotype.top_p,
            max_tokens: config.max_tokens,
        }
    }

    /// The output that the agent reports for the model's answer, received
    /// after `elapsed` nanoseconds.
    pub fn package(&self, response: LlmResponse, elapsed: u128) -> (r: AgentOutput)
        ensures
            r@ == (AgentOutputView {
                agent_id: self.id,
                genotype_name: self.genotype.name@,
                strategy: self.genotype.strategy,
                content: response.content@,
                tokens_used: response.total_tokens,
                elapsed,
            }),
    {
        AgentOutput {
            agent_id: self.id,
            genotype_name: self.genotype.name.clone(),
            strategy: self.genotype.strategy,
            content: response.content,
            tokens_used: response.total_tokens,
            elapsed,
        }
    }
}

} // verus!
