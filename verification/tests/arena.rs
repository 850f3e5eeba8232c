use emas::agent::AgentOutput;
use emas::arena::{ArenaEvent, ArenaRun, Outcome};
use emas::config::{Config, Provider};
use emas::evolution::ScoredTeam;
use emas::genotype::ReasoningStrategy;
use emas::judge::QualityPlan;
use emas::orchestrator::FitnessScore;
use emas::team::{Team, TeamOutput};
use rand::rngs::StdRng;
use rand::SeedableRng;

fn config(population_size: usize, team_size: usize, max_generations: usize, threshold: u32) -> Config {
    Config {
        provider: Provider::Openai,
        api_base_url: "u".to_string(),
        api_key: "k".to_string(),
        model: "m".to_string(),
        population_size,
        team_size,
        max_generations,
        fitness_threshold: threshold,
        mutation_rate: 300_000,
        elite_count: 0,
        max_tokens: 1000,
        quality_weight: 500_000,
        consistency_weight: 300_000,
        efficiency_weight: 200_000,
        judge_provider: Provider::Openai,
        judge_api_base_url: "u".to_string(),
        judge_api_key: "k".to_string(),
        judge_model: "m".to_string(),
    }
    .validate()
    .unwrap()
}

fn output_of(team: &Team, content: &str) -> TeamOutput {
    TeamOutput {
        team_id: team.id,
        team_name: team.name.clone(),
        agent_outputs: vec![AgentOutput {
            agent_id: team.agents[0].id,
            genotype_name: team.agents[0].genotype.name.clone(),
            strategy: team.agents[0].genotype.strategy,
            content: content.to_string(),
            tokens_used: 100,
            elapsed: 10,
        }],
        total_tokens: 100,
        total_elapsed: 10,
        warnings: Vec::new(),
    }
}

fn scored(team: &Team, total: u32, content: &str, critique: &str) -> ScoredTeam {
    ScoredTeam {
        team: team.clone(),
        output: output_of(team, content),
        score: FitnessScore {
            quality: total,
            consistency: total,
            efficiency: total,
            diversity_penalty: 0,
            total,
            judge_critique: critique.to_string(),
        },
    }
}

#[test]
fn one_generation_without_convergence() {
    let mut rng = StdRng::seed_from_u64(21);
    let cfg = config(4, 1, 1, 10_000_000);
    assert_eq!(cfg.elite_count, 2);
    let mut run = ArenaRun::start(cfg, &mut rng);
    assert!(!run.is_finished());
    assert!(!run.has_best());
    assert_eq!(run.generations_run(), 0);
    assert!(matches!(run.generation_started(), ArenaEvent::GenerationStarted { gen: 1, total: 1 }));
    let teams = run.pending_teams();
    assert_eq!(teams.len(), 4);
    for t in &teams {
        assert_eq!(t.agents.len(), 1);
        assert!(!t.agents[0].genotype.is_red_team);
    }
    let new_scored: Vec<ScoredTeam> = teams
        .iter()
        .enumerate()
        .map(|(i, t)| scored(t, 5_000_000 + i as u32 * 1_000_000, "an answer", ""))
        .collect();
    let report = run.complete_generation(new_scored, &mut rng);
    assert_eq!(report.outcome, Outcome::Exhausted);
    assert_eq!(report.events.len(), 1);
    match &report.events[0] {
        ArenaEvent::GenerationComplete { gen, scores, best_name, best_score } => {
            assert_eq!(*gen, 1);
            assert_eq!(scores.len(), 4);
            assert_eq!(best_name, "Delta");
            assert_eq!(*best_score, 8_000_000);
            let totals: Vec<u32> = scores.iter().map(|s| s.total).collect();
            assert_eq!(totals, vec![8_000_000, 7_000_000, 6_000_000, 5_000_000]);
            assert_eq!(scores[0].name, "Delta");
            assert_eq!(scores[3].name, "Alpha");
        }
        _ => panic!("the generation is reported first"),
    }
    assert!(run.is_finished());
    assert!(run.has_best());
    assert_eq!(run.generations_run(), 1);
    assert_eq!(run.carried_count(), 0);
    let names: Vec<String> = run.pending_teams().iter().map(|t| t.name.clone()).collect();
    assert_eq!(names, vec!["Alpha", "Beta", "Gamma", "Delta"]);
    let request = run.synthesis_request("the problem");
    assert_eq!(
        request.system_prompt,
        "You are a synthesis expert. Combine multiple expert analyses into one clear, comprehensive response."
    );
    assert!(request.user_message.starts_with(
        "Synthesise the following expert analyses into a single, comprehensive response.\n\n**Problem:** the problem\n\n**Expert Analyses:**\n--- "
    ));
    assert!(request.user_message.ends_with(
        ") ---\nan answer\n\n\nProvide a unified, authoritative response that incorporates the strongest insights from each expert. Be thorough but concise."
    ));
    assert_eq!(request.temperature, 300_000);
    assert_eq!(request.top_p, 1_000_000);
    assert_eq!(request.max_tokens, 4000);
    let result = run.finish("the synthesis".to_string());
    assert_eq!(result.generations_run, 1);
    assert_eq!(result.best_team.name, "Delta");
    assert_eq!(result.best_score.total, 8_000_000);
    assert_eq!(result.best_output.team_name, "Delta");
    assert_eq!(result.synthesis, "the synthesis");
    assert_eq!(result.clone().generations_run, 1);
}

#[test]
fn a_run_of_no_generations_is_over_at_once() {
    let mut rng = StdRng::seed_from_u64(22);
    let run = ArenaRun::start(config(2, 3, 0, 8_000_000), &mut rng);
    assert!(run.is_finished());
    assert!(!run.has_best());
    assert_eq!(run.generations_run(), 0);
    assert_eq!(run.config().population_size, 2);
}

#[test]
fn reaching_the_threshold_ends_the_run() {
    let mut rng = StdRng::seed_from_u64(23);
    let mut run = ArenaRun::start(config(3, 2, 5, 8_000_000), &mut rng);
    let teams = run.pending_teams();
    assert_eq!(teams.len(), 3);
    let critique = "The agents failed to consider negative inputs, which is a significant gap.";
    let new_scored = vec![
        scored(&teams[0], 7_999_999, "x", critique),
        scored(&teams[1], 8_000_000, "y", critique),
        scored(&teams[2], 3_000_000, "z", critique),
    ];
    let report = run.complete_generation(new_scored, &mut rng);
    assert_eq!(report.outcome, Outcome::Converged);
    assert_eq!(report.events.len(), 2);
    assert!(matches!(report.events[0], ArenaEvent::GenerationComplete { gen: 1, .. }));
    assert!(matches!(report.events[1], ArenaEvent::Converged { gen: 1, score: 8_000_000 }));
    assert!(run.is_finished());
    assert_eq!(run.generations_run(), 1);
    assert!(run.knowledge().is_empty());
    let result = run.finish(String::new());
    assert_eq!(result.best_team.name, "Beta");
    assert_eq!(result.generations_run, 1);
}

#[test]
fn generations_evolve_until_the_last() {
    let mut rng = StdRng::seed_from_u64(24);
    let mut run = ArenaRun::start(config(4, 2, 3, 9_500_000), &mut rng);
    let teams = run.pending_teams();
    let critique = "Good start. The agents failed to consider negative inputs, which is a significant gap.";
    let new_scored = vec![
        scored(&teams[0], 4_000_000, "the result is clearly forty two", critique),
        scored(&teams[1], 6_000_000, "pineapple mango banana kiwi", critique),
        scored(&teams[2], 6_000_000, "the result is clearly forty two", ""),
        scored(&teams[3], 5_000_000, "the result is clearly forty two", ""),
    ];
    let report = run.complete_generation(new_scored, &mut rng);
    assert_eq!(report.outcome, Outcome::Evolved);
    assert_eq!(report.events.len(), 2);
    assert!(matches!(report.events[1], ArenaEvent::Evolving { kept: 2, spawning: 2 }));
    assert!(!run.is_finished());
    assert_eq!(run.generations_run(), 1);
    assert_eq!(run.carried_count(), 2);
    let hints: Vec<String> = run.knowledge().hints().to_vec();
    assert_eq!(hints.len(), 4);
    assert_eq!(
        hints[0],
        "UNRESOLVED: The agents failed to consider negative inputs, which is a significant gap"
    );
    assert_eq!(
        hints[1],
        "CONFLICT: Team \"Beta\" and Team \"Gamma\" reached very different conclusions. Investigate which is correct and why."
    );
    assert!(hints[2].starts_with("CONFLICT: Team \"Beta\" and Team \"Delta\""));
    assert!(hints[3].starts_with("CONFLICT: Team \"Beta\" and Team \"Alpha\""));
    assert!(matches!(run.generation_started(), ArenaEvent::GenerationStarted { gen: 2, total: 3 }));
    let pending = run.pending_teams();
    assert_eq!(pending.len(), 2);
    assert_eq!(pending[0].name, "Gamma-G1");
    assert_eq!(pending[1].name, "Delta-G1");
    for t in &pending {
        assert_eq!(t.generation, 1);
        assert_eq!(t.agents.len(), 2);
        assert_eq!(t.agents[0].genotype.knowledge_hints, hints);
        assert_eq!(t.agents[0].genotype.judge_feedback, Some(critique.to_string()));
    }
    // The second generation: nothing beats the best so far.
    let new_scored = vec![
        scored(&pending[0], 6_000_000, "one", ""),
        scored(&pending[1], 2_000_000, "two", ""),
    ];
    let report = run.complete_generation(new_scored, &mut rng);
    assert_eq!(report.outcome, Outcome::Evolved);
    match &report.events[0] {
        ArenaEvent::GenerationComplete { gen, scores, best_name, best_score } => {
            assert_eq!(*gen, 2);
            assert_eq!(*best_score, 6_000_000);
            assert_eq!(best_name, "Alpha-G1");
            let names: Vec<&str> = scores.iter().map(|s| s.name.as_str()).collect();
            assert_eq!(names, vec!["Alpha-G1", "Beta-G1", "Gamma-G1", "Delta-G1"]);
        }
        _ => panic!("the generation is reported first"),
    }
    assert_eq!(run.generations_run(), 2);
    let pending = run.pending_teams();
    assert_eq!(pending.len(), 2);
    assert_eq!(pending[0].name, "Gamma-G2");
    // The last generation.
    let new_scored = vec![
        scored(&pending[0], 9_000_000, "three", ""),
        scored(&pending[1], 1_000_000, "four", ""),
    ];
    let report = run.complete_generation(new_scored, &mut rng);
    assert_eq!(report.outcome, Outcome::Exhausted);
    assert_eq!(report.events.len(), 1);
    assert!(run.is_finished());
    assert_eq!(run.generations_run(), 3);
    let result = run.finish("done".to_string());
    assert_eq!(result.best_team.name, "Gamma-G2");
    assert_eq!(result.best_score.total, 9_000_000);
    assert_eq!(result.generations_run, 3);
}

#[test]
fn the_first_best_team_stays_on_a_tie() {
    let mut rng = StdRng::seed_from_u64(25);
    let mut run = ArenaRun::start(config(2, 1, 2, 9_500_000), &mut rng);
    let teams = run.pending_teams();
    let first = vec![scored(&teams[0], 6_000_000, "a", ""), scored(&teams[1], 6_000_000, "b", "")];
    run.complete_generation(first, &mut rng);
    let pending = run.pending_teams();
    assert_eq!(pending.len(), 1);
    let second = vec![scored(&pending[0], 6_000_000, "c", "")];
    run.complete_generation(second, &mut rng);
    let result = run.finish(String::new());
    assert_eq!(result.best_team.name, "Alpha");
    assert_eq!(result.best_team.generation, 0);
    assert_eq!(result.generations_run, 2);
}

#[test]
fn scoring_in_a_run() {
    let mut rng = StdRng::seed_from_u64(26);
    let run = ArenaRun::start(config(2, 1, 11, 9_500_000), &mut rng);
    let teams = run.pending_teams();
    let output = output_of(&teams[0], "some answer");
    match run.plan_quality(&output, "the problem") {
        QualityPlan::Ask { first_request, .. } => {
            assert!(first_request.user_message.contains("the problem"));
            assert!(first_request.user_message.contains("some answer"));
        }
        QualityPlan::Settled { .. } => panic!("there is an output to judge"),
    }
    let s = run.score(&output, 8_000_000, "c".to_string());
    assert_eq!(s.quality, 8_000_000);
    assert_eq!(s.consistency, 10_000_000);
    assert_eq!(s.efficiency, 9_000_000);
    assert_eq!(s.diversity_penalty, 0);
    assert_eq!(s.total, 4_000_000 + 3_000_000 + 1_800_000);
    let mut empty = output_of(&teams[0], "");
    empty.agent_outputs.clear();
    assert!(matches!(run.plan_quality(&empty, "p"), QualityPlan::Settled { .. }));
    assert_ne!(teams[0].agents[0].genotype.strategy, ReasoningStrategy::RedTeam);
}

#[test]
fn an_exhausted_run_leaves_the_knowledge_as_it_is() {
    let mut rng = StdRng::seed_from_u64(27);
    let mut run = ArenaRun::start(config(2, 1, 2, 9_500_000), &mut rng);
    let critique = "The agents failed to consider negative inputs, which is a significant gap.";
    let teams = run.pending_teams();
    let first = vec![
        scored(&teams[0], 6_000_000, "the answer is seven", critique),
        scored(&teams[1], 5_000_000, "the answer is seven", critique),
    ];
    assert_eq!(run.complete_generation(first, &mut rng).outcome, Outcome::Evolved);
    assert_eq!(run.knowledge().len(), 1);
    let pending = run.pending_teams();
    let other = "They overlooked the boundary case entirely, which is a clear error.";
    let second = vec![scored(&pending[0], 3_000_000, "nothing alike whatsoever", other)];
    assert_eq!(run.complete_generation(second, &mut rng).outcome, Outcome::Exhausted);
    let hints: Vec<String> = run.knowledge().hints().to_vec();
    assert_eq!(
        hints,
        vec!["UNRESOLVED: The agents failed to consider negative inputs, which is a significant gap"
            .to_string()]
    );
    // A run of one generation never feeds the knowledge base.
    let mut run = ArenaRun::start(config(2, 1, 1, 9_500_000), &mut rng);
    let teams = run.pending_teams();
    let only = vec![scored(&teams[0], 6_000_000, "a", critique), scored(&teams[1], 5_000_000, "b", critique)];
    assert_eq!(run.complete_generation(only, &mut rng).outcome, Outcome::Exhausted);
    assert!(run.knowledge().is_empty());
}
