use emas::agent::{Agent, AgentOutput};
use emas::config::{Config, Provider};
use emas::genotype::{Genotype, ReasoningStrategy};
use emas::llm::LlmResponse;
use emas::team::{red_team_prompt, Team, TeamStep};

fn config() -> Config {
    Config {
        provider: Provider::Openai,
        api_base_url: "u".to_string(),
        api_key: "k".to_string(),
        model: "m".to_string(),
        population_size: 4,
        team_size: 3,
        max_generations: 5,
        fitness_threshold: 8_500_000,
        mutation_rate: 300_000,
        elite_count: 2,
        max_tokens: 777,
        quality_weight: 500_000,
        consistency_weight: 300_000,
        efficiency_weight: 200_000,
        judge_provider: Provider::Openai,
        judge_api_base_url: "u".to_string(),
        judge_api_key: "k".to_string(),
        judge_model: "m".to_string(),
    }
}

fn team(red: bool) -> Team {
    let mut agents = vec![
        Agent::new(Genotype::new("Critical Analyst", ReasoningStrategy::Critical, 300_000)),
        Agent::new(Genotype::new("Logical Reasoner", ReasoningStrategy::Logical, 200_000)),
    ];
    if red {
        agents.push(Agent::new(Genotype::red_team()));
    }
    Team { id: 99, name: "Alpha".to_string(), agents, generation: 0 }
}

fn answer(agent: &Agent, content: &str, tokens: u32, elapsed: u128) -> AgentOutput {
    agent.package(
        LlmResponse {
            content: content.to_string(),
            prompt_tokens: 1,
            completion_tokens: 2,
            total_tokens: tokens,
        },
        elapsed,
    )
}

#[test]
fn agents_get_fresh_identities() {
    let a = Agent::new(Genotype::red_team());
    let b = Agent::new(Genotype::red_team());
    assert_ne!(a.id, b.id);
    assert_ne!(a.id, 0);
    // Version 4, variant 1.
    assert_eq!((a.id >> 76) & 0xF, 4);
    assert_eq!((a.id >> 62) & 0x3, 2);
    let c = a.clone();
    assert_eq!(c.id, a.id);
    assert_eq!(c.genotype.name, a.genotype.name);
}

#[test]
fn agent_request_and_output() {
    let agent = Agent::new(Genotype::new("Creative Thinker", ReasoningStrategy::Creative, 900_000));
    let r = agent.request("Why is the sky blue?", &config());
    assert_eq!(r.system_prompt, agent.genotype.build_system_prompt());
    assert_eq!(r.user_message, "Why is the sky blue?");
    assert_eq!(r.temperature, 900_000);
    assert_eq!(r.top_p, 1_000_000);
    assert_eq!(r.max_tokens, 777);
    let o = answer(&agent, "Rayleigh scattering.", 42, 1_500);
    assert_eq!(o.agent_id, agent.id);
    assert_eq!(o.genotype_name, "Creative Thinker");
    assert_eq!(o.strategy, ReasoningStrategy::Creative);
    assert_eq!(o.content, "Rayleigh scattering.");
    assert_eq!(o.tokens_used, 42);
    assert_eq!(o.elapsed, 1_500);
}

#[test]
fn standard_agents_run_first_on_the_problem() {
    let t = team(true);
    assert_eq!(t.members_with(false), vec![0, 1]);
    assert_eq!(t.members_with(true), vec![2]);
    match t.begin("the problem") {
        TeamStep::Run { state: _, agents, prompt } => {
            assert_eq!(agents, vec![0, 1]);
            assert_eq!(prompt, "the problem");
        }
        TeamStep::Finished(_) => panic!("nothing has run yet"),
    }
}

#[test]
fn red_team_sees_every_standard_answer_verbatim() {
    let t = team(true);
    let state = match t.begin("the problem") {
        TeamStep::Run { state, .. } => state,
        TeamStep::Finished(_) => panic!("nothing has run yet"),
    };
    let results = vec![
        Ok(answer(&t.agents[0], "First answer\nwith two lines.", 10, 300)),
        Ok(answer(&t.agents[1], "Second answer.", 20, 200)),
    ];
    let state = match t.resume(state, "the problem", &results) {
        TeamStep::Run { state, agents, prompt } => {
            assert_eq!(agents, vec![2]);
            assert!(prompt.contains("First answer\nwith two lines."));
            assert!(prompt.contains("Second answer."));
            assert_eq!(
                prompt,
                "the problem\n\n=== Other Agents' Responses (Your Task: Find Flaws) ===\nThe following agents on your team have already answered. Your job is to rigorously check their logic, find any contradictions, false assumptions, or errors, and present a corrected analysis if needed.\n\n--- Critical Analyst (Critical Analysis) ---\nFirst answer\nwith two lines.\n\n--- Logical Reasoner (Strict Logic) ---\nSecond answer.\n\n"
            );
            state
        }
        TeamStep::Finished(_) => panic!("the red team has not run yet"),
    };
    let red = vec![Ok(answer(&t.agents[2], "I object.", 5, 900))];
    match t.resume(state, "the problem", &red) {
        TeamStep::Finished(output) => {
            assert_eq!(output.team_id, 99);
            assert_eq!(output.team_name, "Alpha");
            let contents: Vec<&str> = output.agent_outputs.iter().map(|o| o.content.as_str()).collect();
            assert_eq!(contents, vec!["First answer\nwith two lines.", "Second answer.", "I object."]);
            assert_eq!(output.total_tokens, 35);
            assert_eq!(output.total_elapsed, 900);
            assert!(output.warnings.is_empty());
        }
        TeamStep::Run { .. } => panic!("both phases have run"),
    }
}

#[test]
fn red_team_prompt_of_given_outputs() {
    let t = team(true);
    let outputs = vec![answer(&t.agents[1], "Only one.", 1, 1)];
    assert_eq!(
        red_team_prompt("Q", &outputs),
        "Q\n\n=== Other Agents' Responses (Your Task: Find Flaws) ===\nThe following agents on your team have already answered. Your job is to rigorously check their logic, find any contradictions, false assumptions, or errors, and present a corrected analysis if needed.\n\n--- Logical Reasoner (Strict Logic) ---\nOnly one.\n\n"
    );
}

#[test]
fn failures_become_warnings() {
    let t = team(true);
    let state = match t.begin("p") {
        TeamStep::Run { state, .. } => state,
        TeamStep::Finished(_) => panic!("nothing has run yet"),
    };
    let results = vec![Err("timeout: no reply".to_string()), Ok(answer(&t.agents[1], "ok", 7, 70))];
    let state = match t.resume(state, "p", &results) {
        TeamStep::Run { state, agents, prompt } => {
            assert_eq!(agents, vec![2]);
            assert!(prompt.ends_with("--- Logical Reasoner (Strict Logic) ---\nok\n\n"));
            assert!(!prompt.contains("Critical Analyst"));
            state
        }
        TeamStep::Finished(_) => panic!("one agent succeeded"),
    };
    match t.resume(state, "p", &vec![Err("HTTP 500".to_string())]) {
        TeamStep::Finished(output) => {
            assert_eq!(output.agent_outputs.len(), 1);
            assert_eq!(output.total_tokens, 7);
            assert_eq!(output.total_elapsed, 70);
            assert_eq!(
                output.warnings,
                vec![
                    "Agent failed in Alpha: timeout: no reply".to_string(),
                    "Red-team agent failed in Alpha: HTTP 500".to_string()
                ]
            );
        }
        TeamStep::Run { .. } => panic!("both phases have run"),
    }
}

#[test]
fn red_team_is_skipped_when_no_standard_agent_succeeds() {
    let t = team(true);
    let state = match t.begin("p") {
        TeamStep::Run { state, .. } => state,
        TeamStep::Finished(_) => panic!("nothing has run yet"),
    };
    let results = vec![Err("a".to_string()), Err("b".to_string())];
    match t.resume(state, "p", &results) {
        TeamStep::Finished(output) => {
            assert!(output.agent_outputs.is_empty());
            assert_eq!(output.total_tokens, 0);
            assert_eq!(output.total_elapsed, 0);
            assert_eq!(output.warnings.len(), 2);
        }
        TeamStep::Run { .. } => panic!("there is nothing to audit"),
    }
}

#[test]
fn team_without_red_agent_has_one_phase() {
    let t = team(false);
    let state = match t.begin("p") {
        TeamStep::Run { state, .. } => state,
        TeamStep::Finished(_) => panic!("nothing has run yet"),
    };
    let results = vec![Ok(answer(&t.agents[0], "x", u32::MAX, 1)), Ok(answer(&t.agents[1], "y", 5, 2))];
    match t.resume(state, "p", &results) {
        TeamStep::Finished(output) => {
            assert_eq!(output.agent_outputs.len(), 2);
            assert_eq!(output.total_tokens, u32::MAX);
            assert_eq!(output.total_elapsed, 2);
        }
        TeamStep::Run { .. } => panic!("there is no red team"),
    }
}

#[test]
fn team_clone_keeps_agents() {
    let t = team(true);
    let c = t.clone();
    assert_eq!(c.id, t.id);
    assert_eq!(c.name, t.name);
    assert_eq!(c.generation, t.generation);
    assert_eq!(c.agents.len(), 3);
    for (a, b) in c.agents.iter().zip(&t.agents) {
        assert_eq!(a.id, b.id);
        assert_eq!(a.genotype.name, b.genotype.name);
    }
}
