use emas::agent::Agent;
use emas::chance::draw_index;
use emas::config::{Config, Provider};
use emas::evolution::{
    apply_mutation, create_initial_population, cross_genotypes, crossover, draw_mutation, mutate,
    next_generation, rank, refresh_genotype, refresh_hints, team_name, Mutation, ScoredTeam,
};
use emas::genotype::{mutation_modifiers, Genotype, ReasoningStrategy};
use emas::knowledge::KnowledgeBase;
use emas::orchestrator::FitnessScore;
use emas::team::{Team, TeamOutput};
use rand::rngs::StdRng;
use rand::SeedableRng;

fn config(population_size: usize, team_size: usize, elite_count: usize, mutation_rate: u32) -> Config {
    Config {
        provider: Provider::Openai,
        api_base_url: "u".to_string(),
        api_key: "k".to_string(),
        model: "m".to_string(),
        population_size,
        team_size,
        max_generations: 5,
        fitness_threshold: 8_500_000,
        mutation_rate,
        elite_count,
        max_tokens: 1024,
        quality_weight: 500_000,
        consistency_weight: 300_000,
        efficiency_weight: 200_000,
        judge_provider: Provider::Openai,
        judge_api_base_url: "u".to_string(),
        judge_api_key: "k".to_string(),
        judge_model: "m".to_string(),
    }
}

fn scored(id: u128, name: &str, total: u32, critique: &str) -> ScoredTeam {
    ScoredTeam {
        team: Team {
            id,
            name: name.to_string(),
            agents: vec![Agent::new(Genotype::new(name, ReasoningStrategy::Logical, 400_000))],
            generation: 0,
        },
        output: TeamOutput {
            team_id: id,
            team_name: name.to_string(),
            agent_outputs: Vec::new(),
            total_tokens: 0,
            total_elapsed: 0,
            warnings: Vec::new(),
        },
        score: FitnessScore {
            quality: total,
            consistency: total,
            efficiency: total,
            diversity_penalty: 0,
            total,
            judge_critique: critique.to_string(),
        },
    }
}

#[test]
fn team_names() {
    assert_eq!(team_name(0, 0), "Alpha");
    assert_eq!(team_name(1, 0), "Beta");
    assert_eq!(team_name(23, 0), "Omega");
    assert_eq!(team_name(24, 0), "Alpha");
    assert_eq!(team_name(2, 3), "Gamma-G3");
    assert_eq!(team_name(25, 12), "Beta-G12");
    assert_eq!(team_name(14, 1), "Omicron-G1");
    let all: Vec<String> = (0..24).map(|i| team_name(i, 0)).collect();
    assert_eq!(
        all,
        vec![
            "Alpha", "Beta", "Gamma", "Delta", "Epsilon", "Zeta", "Eta", "Theta", "Iota", "Kappa",
            "Lambda", "Mu", "Nu", "Xi", "Omicron", "Pi", "Rho", "Sigma", "Tau", "Upsilon", "Phi", "Chi",
            "Psi", "Omega"
        ]
    );
}

#[test]
fn draws_stay_in_range() {
    let mut rng = StdRng::seed_from_u64(5);
    let mut seen = [false; 7];
    for _ in 0..300 {
        let i = draw_index(&mut rng, 7);
        assert!(i < 7);
        seen[i] = true;
    }
    assert!(seen.iter().all(|s| *s));
    assert_eq!(draw_index(&mut rng, 1), 0);
}

#[test]
fn initial_population_has_a_red_team_agent_per_team() {
    let mut rng = StdRng::seed_from_u64(1);
    let teams = create_initial_population(&config(5, 3, 2, 300_000), &mut rng);
    assert_eq!(teams.len(), 5);
    let templates: Vec<String> = Genotype::templates().into_iter().map(|g| g.name).collect();
    let mut orders = Vec::new();
    for (i, t) in teams.iter().enumerate() {
        assert_eq!(t.name, team_name(i, 0));
        assert_eq!(t.generation, 0);
        assert_eq!(t.agents.len(), 3);
        assert!(templates.contains(&t.agents[0].genotype.name));
        assert!(templates.contains(&t.agents[1].genotype.name));
        assert_ne!(t.agents[0].genotype.name, t.agents[1].genotype.name);
        assert!(!t.agents[0].genotype.is_red_team);
        assert!(!t.agents[1].genotype.is_red_team);
        assert!(t.agents[2].genotype.is_red_team);
        assert_eq!(t.agents[2].genotype.strategy, ReasoningStrategy::RedTeam);
        assert_eq!(t.agents[2].genotype.name, "Red Team Analyst");
        assert_eq!(t.agents[2].genotype.temperature, 500_000);
        orders.push((t.agents[0].genotype.name.clone(), t.agents[1].genotype.name.clone()));
    }
    orders.dedup();
    assert!(orders.len() > 1);
    let mut ids: Vec<u128> = teams.iter().map(|t| t.id).collect();
    ids.sort();
    ids.dedup();
    assert_eq!(ids.len(), 5);
}

#[test]
fn initial_teams_of_one_have_no_red_team_agent() {
    let mut rng = StdRng::seed_from_u64(2);
    let teams = create_initial_population(&config(4, 1, 2, 300_000), &mut rng);
    assert_eq!(teams.len(), 4);
    for t in &teams {
        assert_eq!(t.agents.len(), 1);
        assert!(!t.agents[0].genotype.is_red_team);
        assert_ne!(t.agents[0].genotype.strategy, ReasoningStrategy::RedTeam);
    }
    assert_eq!(create_initial_population(&config(0, 3, 1, 0), &mut rng).len(), 0);
    let empty = create_initial_population(&config(2, 0, 1, 0), &mut rng);
    assert_eq!(empty.len(), 2);
    assert!(empty[0].agents.is_empty());
}

#[test]
fn large_initial_teams_go_round_the_templates() {
    let mut rng = StdRng::seed_from_u64(3);
    let teams = create_initial_population(&config(2, 12, 1, 300_000), &mut rng);
    for t in &teams {
        assert_eq!(t.agents.len(), 12);
        let mut first: Vec<String> = t.agents[..8].iter().map(|a| a.genotype.name.clone()).collect();
        assert_eq!(t.agents[8].genotype.name, first[0]);
        assert_eq!(t.agents[9].genotype.name, first[1]);
        assert_eq!(t.agents[10].genotype.name, first[2]);
        assert!(t.agents[11].genotype.is_red_team);
        first.sort();
        first.dedup();
        assert_eq!(first.len(), 8);
    }
}

#[test]
fn crossing_two_genotypes() {
    let mut a = Genotype::new("A", ReasoningStrategy::Logical, 200_000);
    a.judge_feedback = Some("fa".to_string());
    let b = Genotype::new("B", ReasoningStrategy::Creative, 900_001);
    let c = cross_genotypes(Some(&a), Some(&b), true).unwrap();
    assert_eq!(c.name, "A");
    assert_eq!(c.strategy, ReasoningStrategy::Logical);
    assert_eq!(c.judge_feedback, Some("fa".to_string()));
    assert_eq!(c.temperature, 550_000);
    assert!(!c.is_red_team);
    let c = cross_genotypes(Some(&a), Some(&b), false).unwrap();
    assert_eq!(c.name, "B");
    assert_eq!(c.temperature, 550_000);
    let red = Genotype::red_team();
    let c = cross_genotypes(Some(&red), Some(&b), true).unwrap();
    assert_eq!(c.name, "B");
    assert_eq!(c.temperature, 900_001);
    let c = cross_genotypes(Some(&a), Some(&red), false).unwrap();
    assert_eq!(c.name, "A");
    assert_eq!(c.temperature, 200_000);
    assert!(cross_genotypes(Some(&red), Some(&red), true).is_none());
    assert!(cross_genotypes(Some(&red), None, false).is_none());
    assert!(cross_genotypes(None, Some(&red), true).is_none());
    let c = cross_genotypes(Some(&a), None, false).unwrap();
    assert_eq!(c.name, "A");
    assert_eq!(c.judge_feedback, Some("fa".to_string()));
    let c = cross_genotypes(None, Some(&b), true).unwrap();
    assert_eq!(c.name, "B");
    assert_eq!(c.temperature, 900_001);
    assert!(cross_genotypes(None, None, true).is_none());
}

#[test]
fn children_blend_their_parents() {
    let mut rng = StdRng::seed_from_u64(4);
    let parents = create_initial_population(&config(2, 3, 1, 0), &mut rng);
    let mut first = 0;
    for _ in 0..50 {
        let child = crossover(&parents[0], &parents[1], 3, 2, 4, &mut rng);
        assert_eq!(child.name, "Epsilon-G2");
        assert_eq!(child.generation, 2);
        assert_eq!(child.agents.len(), 3);
        assert_ne!(child.id, parents[0].id);
        for i in 0..2 {
            let g = &child.agents[i].genotype;
            let ga = &parents[0].agents[i].genotype;
            let gb = &parents[1].agents[i].genotype;
            assert!(g.name == ga.name || g.name == gb.name);
            assert_eq!(g.temperature, (ga.temperature + gb.temperature) / 2);
            assert!(!g.is_red_team);
            if g.name == ga.name {
                first += 1;
            }
        }
        assert!(child.agents[2].genotype.is_red_team);
    }
    assert!(first > 0);
    let lone = crossover(&parents[0], &parents[1], 1, 1, 0, &mut rng);
    assert_eq!(lone.agents.len(), 1);
    assert!(!lone.agents[0].genotype.is_red_team);
    let wide = crossover(&parents[0], &parents[1], 5, 1, 0, &mut rng);
    assert_eq!(wide.agents.len(), 5);
    // The third slot goes round to the parents' red-team agents, which
    // have nothing to give: a template stands there.
    let templates: Vec<String> = Genotype::templates().into_iter().map(|g| g.name).collect();
    assert!(templates.contains(&wide.agents[2].genotype.name));
    assert_ne!(wide.agents[2].genotype.strategy, ReasoningStrategy::RedTeam);
    assert!(!wide.agents[2].genotype.is_red_team);
    assert!(wide.agents[4].genotype.is_red_team);
}

#[test]
fn red_team_donors_give_nothing() {
    let mut rng = StdRng::seed_from_u64(14);
    let mut a = Genotype::new("A", ReasoningStrategy::Logical, 200_000);
    a.base_instruction = "only in a".to_string();
    let mut b0 = Genotype::new("B0", ReasoningStrategy::Creative, 800_000);
    b0.base_instruction = "only in b0".to_string();
    let mut b1 = Genotype::new("B1", ReasoningStrategy::Critical, 600_000);
    b1.base_instruction = "only in b1".to_string();
    let parent_a = Team {
        id: 1,
        name: "a".to_string(),
        agents: vec![Agent::new(a), Agent::new(Genotype::red_team())],
        generation: 0,
    };
    let parent_b = Team {
        id: 2,
        name: "b".to_string(),
        agents: vec![Agent::new(b0), Agent::new(b1), Agent::new(Genotype::red_team())],
        generation: 0,
    };
    let templates: Vec<String> = Genotype::templates().into_iter().map(|g| g.name).collect();
    for _ in 0..20 {
        let child = crossover(&parent_a, &parent_b, 7, 1, 0, &mut rng);
        assert_eq!(child.agents.len(), 7);
        // Slot 0: both sides give; the temperatures are blended.
        assert_eq!(child.agents[0].genotype.temperature, 500_000);
        // Slot 1: the first parent's agent is its red team; the other side's
        // genotype is taken as it is.
        assert_eq!(child.agents[1].genotype.name, "B1");
        assert_eq!(child.agents[1].genotype.temperature, 600_000);
        // Slot 2: the second parent's agent is its red team.
        assert_eq!(child.agents[2].genotype.name, "A");
        assert_eq!(child.agents[2].genotype.temperature, 200_000);
        // Slot 5: both are red-team agents; a template stands there.
        let g = &child.agents[5].genotype;
        assert!(templates.contains(&g.name));
        assert!(g.base_instruction.starts_with("You are a"));
        assert_ne!(g.strategy, ReasoningStrategy::RedTeam);
        assert!(!g.is_red_team);
        for slot in &child.agents[..6] {
            assert!(!slot.genotype.is_red_team);
            assert_ne!(slot.genotype.strategy, ReasoningStrategy::RedTeam);
        }
        assert!(child.agents[6].genotype.is_red_team);
    }
}

#[test]
fn children_of_empty_parents_are_templates() {
    let mut rng = StdRng::seed_from_u64(6);
    let empty = Team { id: 1, name: "E".to_string(), agents: Vec::new(), generation: 0 };
    let names: Vec<String> = Genotype::templates().into_iter().map(|g| g.name).collect();
    let child = crossover(&empty, &empty, 4, 1, 0, &mut rng);
    assert_eq!(child.agents.len(), 4);
    for a in &child.agents[..3] {
        assert!(names.contains(&a.genotype.name));
    }
    let full = create_initial_population(&config(1, 2, 1, 0), &mut rng).remove(0);
    let child = crossover(&empty, &full, 2, 1, 0, &mut rng);
    assert_eq!(child.agents[0].genotype.name, full.agents[0].genotype.name);
    assert_eq!(child.agents[0].genotype.temperature, full.agents[0].genotype.temperature);
}

#[test]
fn refreshing_a_genotype() {
    let mut g = Genotype::new("A", ReasoningStrategy::Logical, 200_000);
    g.knowledge_hints = vec!["old".to_string()];
    g.judge_feedback = Some("old feedback".to_string());
    refresh_genotype(&mut g, None, &[]);
    assert_eq!(g.knowledge_hints, vec!["old".to_string()]);
    assert_eq!(g.judge_feedback, Some("old feedback".to_string()));
    refresh_genotype(&mut g, Some(""), &[]);
    assert_eq!(g.judge_feedback, Some("old feedback".to_string()));
    refresh_genotype(&mut g, Some("new feedback"), &["h1".to_string(), "h2".to_string()]);
    assert_eq!(g.knowledge_hints, vec!["h1".to_string(), "h2".to_string()]);
    assert_eq!(g.judge_feedback, Some("new feedback".to_string()));
    refresh_hints(&mut g, &["h3".to_string()]);
    assert_eq!(g.knowledge_hints, vec!["h3".to_string()]);
    assert_eq!(g.judge_feedback, Some("new feedback".to_string()));
    assert_eq!(g.name, "A");
}

#[test]
fn applying_a_mutation() {
    let mut g = Genotype::new("A", ReasoningStrategy::Logical, 1_950_000);
    let role = g.base_instruction.clone();
    apply_mutation(&mut g, &Mutation { delta: 150_000, strategy: None, modifier: None });
    assert_eq!(g.temperature, 2_000_000);
    assert_eq!(g.name, "A");
    apply_mutation(&mut g, &Mutation { delta: -150_000, strategy: Some(ReasoningStrategy::Logical), modifier: None });
    assert_eq!(g.temperature, 1_850_000);
    assert_eq!(g.name, "A");
    assert_eq!(g.strategy, ReasoningStrategy::Logical);
    g.temperature = 100_000;
    apply_mutation(
        &mut g,
        &Mutation {
            delta: -150_000,
            strategy: Some(ReasoningStrategy::Critical),
            modifier: Some(mutation_modifiers()[4]),
        },
    );
    assert_eq!(g.temperature, 0);
    assert_eq!(g.strategy, ReasoningStrategy::Critical);
    assert_eq!(g.name, "Critical Analysis (mutated)");
    assert_eq!(g.base_instruction, format!("{} Question your own assumptions at each step.", role));
    let base = g.base_instruction.clone();
    apply_mutation(&mut g, &Mutation { delta: 0, strategy: None, modifier: Some(mutation_modifiers()[4]) });
    assert_eq!(g.base_instruction, base);
    assert_eq!(g.temperature, 0);
    g.temperature = 3_000_000;
    apply_mutation(&mut g, &Mutation { delta: -1, strategy: None, modifier: None });
    assert_eq!(g.temperature, 2_000_000);
    let mut red = Genotype::red_team();
    apply_mutation(&mut red, &Mutation { delta: 7, strategy: Some(ReasoningStrategy::Creative), modifier: None });
    assert_eq!(red.strategy, ReasoningStrategy::RedTeam);
    assert_eq!(red.name, "Red Team Analyst");
    assert_eq!(red.temperature, 500_007);
}

#[test]
fn drawn_mutations_are_possible() {
    let mut rng = StdRng::seed_from_u64(8);
    let mut deltas = Vec::new();
    let (mut strategies, mut modifiers) = (0, 0);
    for _ in 0..400 {
        let m = draw_mutation(&mut rng, false);
        assert!(-150_000 <= m.delta && m.delta <= 150_000);
        if let Some(s) = m.strategy {
            assert_ne!(s, ReasoningStrategy::RedTeam);
            strategies += 1;
        }
        if let Some(text) = m.modifier {
            assert!(mutation_modifiers().contains(&text));
            modifiers += 1;
        }
        deltas.push(m.delta);
        assert!(draw_mutation(&mut rng, true).strategy.is_none());
    }
    deltas.sort();
    deltas.dedup();
    assert!(deltas.len() > 300);
    assert!(deltas[0] < -100_000 && deltas[deltas.len() - 1] > 100_000);
    assert!(40 < strategies && strategies < 170);
    assert!(30 < modifiers && modifiers < 150);
}

#[test]
fn mutation_rate_zero_only_refreshes() {
    let mut rng = StdRng::seed_from_u64(9);
    let mut kb = KnowledgeBase::new(15);
    kb.add("remember this".to_string());
    let mut team = create_initial_population(&config(1, 3, 1, 0), &mut rng).remove(0);
    let before = team.clone();
    mutate(&mut team, 0, Some("be deeper"), &kb, &mut rng);
    assert_eq!(team.id, before.id);
    assert_eq!(team.name, before.name);
    assert_eq!(team.agents.len(), 3);
    for (a, b) in team.agents.iter().zip(&before.agents) {
        assert_eq!(a.id, b.id);
        assert_eq!(a.genotype.name, b.genotype.name);
        assert_eq!(a.genotype.temperature, b.genotype.temperature);
        assert_eq!(a.genotype.strategy, b.genotype.strategy);
        assert_eq!(a.genotype.base_instruction, b.genotype.base_instruction);
        assert_eq!(a.genotype.knowledge_hints, vec!["remember this".to_string()]);
        assert_eq!(a.genotype.judge_feedback, Some("be deeper".to_string()));
    }
}

#[test]
fn full_mutation_rate_mutates_every_agent() {
    let mut rng = StdRng::seed_from_u64(10);
    let kb = KnowledgeBase::new(15);
    let mut changed = 0;
    for _ in 0..30 {
        let mut team = create_initial_population(&config(1, 3, 1, 0), &mut rng).remove(0);
        let before = team.clone();
        mutate(&mut team, 1_000_000, None, &kb, &mut rng);
        for (a, b) in team.agents.iter().zip(&before.agents) {
            let moved = a.genotype.temperature as i64 - b.genotype.temperature as i64;
            assert!(-150_000 <= moved && moved <= 150_000);
            if moved != 0 {
                changed += 1;
            }
            assert_eq!(a.genotype.is_red_team, b.genotype.is_red_team);
            assert!(a.genotype.base_instruction.starts_with(&b.genotype.base_instruction));
            if b.genotype.is_red_team {
                assert_eq!(a.genotype.strategy, ReasoningStrategy::RedTeam);
            } else {
                assert_ne!(a.genotype.strategy, ReasoningStrategy::RedTeam);
            }
            if a.genotype.strategy != b.genotype.strategy {
                assert_eq!(a.genotype.name, format!("{} (mutated)", a.genotype.strategy.label()));
            } else {
                assert_eq!(a.genotype.name, b.genotype.name);
            }
            assert!(a.genotype.knowledge_hints.is_empty());
            assert_eq!(a.genotype.judge_feedback, None);
        }
    }
    assert!(changed > 80);
    let mut team = create_initial_population(&config(1, 3, 1, 0), &mut rng).remove(0);
    mutate(&mut team, u32::MAX, None, &kb, &mut rng);
    assert_eq!(team.agents.len(), 3);
}

#[test]
fn ranking_is_by_falling_total_and_stable() {
    let mut teams = vec![
        scored(1, "a", 5_000_000, ""),
        scored(2, "b", 7_000_000, ""),
        scored(3, "c", 5_000_000, ""),
        scored(4, "d", 9_000_000, ""),
        scored(5, "e", 7_000_000, ""),
    ];
    rank(&mut teams);
    let names: Vec<&str> = teams.iter().map(|t| t.team.name.as_str()).collect();
    assert_eq!(names, vec!["d", "b", "e", "a", "c"]);
    let mut none: Vec<ScoredTeam> = Vec::new();
    rank(&mut none);
    assert!(none.is_empty());
    let mut one = vec![scored(1, "a", 1, "")];
    rank(&mut one);
    assert_eq!(one[0].team.name, "a");
}

#[test]
fn next_generation_keeps_elites_and_breeds_children() {
    let mut rng = StdRng::seed_from_u64(12);
    let mut kb = KnowledgeBase::new(15);
    kb.add("a hint".to_string());
    let mut teams = vec![
        scored(1, "Alpha", 5_000_000, "critique of the first"),
        scored(2, "Beta", 7_000_000, "critique of beta"),
        scored(3, "Gamma", 9_000_000, "critique of gamma"),
        scored(4, "Delta", 6_000_000, "critique of delta"),
    ];
    let members = next_generation(&mut teams, &config(4, 1, 2, 0), 1, &kb, &mut rng);
    assert_eq!(members.len(), 4);
    let left: Vec<u128> = teams.iter().map(|t| t.team.id).collect();
    assert_eq!(left, vec![4, 1]);
    assert_eq!(members[0].team.id, 3);
    assert_eq!(members[0].team.name, "Alpha-G1");
    assert_eq!(members[0].team.generation, 1);
    assert_eq!(members[0].team.agents[0].genotype.name, "Gamma");
    assert_eq!(members[0].team.agents[0].genotype.knowledge_hints, vec!["a hint".to_string()]);
    assert_eq!(members[0].team.agents[0].genotype.judge_feedback, None);
    let (output, score) = members[0].cached.as_ref().unwrap();
    assert_eq!(output.team_id, 3);
    assert_eq!(score.total, 9_000_000);
    assert_eq!(members[1].team.id, 2);
    assert_eq!(members[1].team.name, "Beta-G1");
    assert_eq!(members[1].cached.as_ref().unwrap().1.total, 7_000_000);
    for (i, m) in members.iter().enumerate().skip(2) {
        assert!(m.cached.is_none());
        assert_eq!(m.team.name, team_name(i, 1));
        assert_eq!(m.team.generation, 1);
        assert_eq!(m.team.agents.len(), 1);
        let g = &m.team.agents[0].genotype;
        assert!(g.name == "Gamma" || g.name == "Beta");
        assert_eq!(g.temperature, 400_000);
        assert_eq!(g.knowledge_hints, vec!["a hint".to_string()]);
        assert_eq!(g.judge_feedback, Some("critique of gamma".to_string()));
        assert!(m.team.id != 3 && m.team.id != 2);
    }
}

#[test]
fn next_generation_with_few_scored_teams() {
    let mut rng = StdRng::seed_from_u64(13);
    let kb = KnowledgeBase::new(15);
    let mut teams = vec![scored(1, "Alpha", 5_000_000, "")];
    let members = next_generation(&mut teams, &config(3, 2, 2, 1_000_000), 4, &kb, &mut rng);
    assert!(teams.is_empty());
    assert_eq!(members.len(), 3);
    assert_eq!(members[0].team.name, "Alpha-G4");
    assert!(members[0].cached.is_some());
    for m in &members[1..] {
        assert!(m.cached.is_none());
        assert_eq!(m.team.agents.len(), 2);
        assert!(m.team.agents[1].genotype.is_red_team);
        assert_eq!(m.team.agents[0].genotype.judge_feedback, None);
    }
    let mut many = vec![scored(1, "a", 1, ""), scored(2, "b", 2, ""), scored(3, "c", 3, "")];
    let members = next_generation(&mut many, &config(2, 1, 3, 0), 1, &kb, &mut rng);
    assert_eq!(members.len(), 3);
    assert!(members.iter().all(|m| m.cached.is_some()));
    assert!(many.is_empty());
}

#[test]
fn children_get_the_feedback_of_the_best_elite() {
    let mut rng = StdRng::seed_from_u64(15);
    let kb = KnowledgeBase::new(15);
    let mut teams = vec![scored(1, "Alpha", 2_000_000, "low"), scored(2, "Beta", 9_000_000, "high")];
    let members = next_generation(&mut teams, &config(2, 1, 1, 0), 1, &kb, &mut rng);
    assert_eq!(members.len(), 2);
    assert_eq!(members[0].team.id, 2);
    assert!(members[1].cached.is_none());
    for agent in &members[1].team.agents {
        assert_eq!(agent.genotype.judge_feedback, Some("high".to_string()));
    }
    let mut teams = vec![scored(1, "Alpha", 2_000_000, "low"), scored(2, "Beta", 9_000_000, "")];
    let members = next_generation(&mut teams, &config(2, 1, 1, 0), 1, &kb, &mut rng);
    assert_eq!(members[1].team.agents[0].genotype.judge_feedback, None);
}
