use emas::genotype::{mutation_modifiers, Genotype, ReasoningStrategy};
use rand::rngs::StdRng;
use rand::SeedableRng;

#[test]
fn nine_strategies_eight_standard() {
    assert_eq!(ReasoningStrategy::all().len(), 9);
    assert_eq!(ReasoningStrategy::standard().len(), 8);
    assert_eq!(ReasoningStrategy::all()[8], ReasoningStrategy::RedTeam);
    assert!(!ReasoningStrategy::standard().contains(&ReasoningStrategy::RedTeam));
    assert_eq!(&ReasoningStrategy::all()[..8], ReasoningStrategy::standard());
}

#[test]
fn strategy_texts() {
    assert_eq!(
        ReasoningStrategy::ChainOfThought.instruction(),
        "Break the problem down step-by-step. Show your reasoning at each stage. Number your steps clearly so the reader can follow your thought process."
    );
    assert!(ReasoningStrategy::RedTeam.instruction().starts_with(
        "You are a Red-Team adversarial analyst. DO NOT verify or confirm the other agents' work. Instead:\n1. Your PRIMARY goal is to prove there is MORE THAN ONE valid solution. Exhaustively"
    ));
    assert!(ReasoningStrategy::RedTeam
        .instruction()
        .ends_with("constraints.\n2. If you find a second valid solution the others missed, present it with full proof.\n3. If you CANNOT find a second valid solution, you must explicitly show why every other possible configuration is impossible - walk through each alternative and show which constraint it violates.\n4. NEVER say 'the agents are correct' without first completing step 3. Lazily agreeing is a failure of your role."));
    assert_eq!(ReasoningStrategy::Creative.label(), "Creative / Lateral");
    assert_eq!(ReasoningStrategy::DevilsAdvocate.label(), "Devil's Advocate");
    assert_eq!(ReasoningStrategy::RedTeam.label(), "Red Team");
    for s in ReasoningStrategy::all() {
        assert!(!s.instruction().is_empty());
        assert!(!s.label().is_empty());
        assert!(s.role().starts_with("You are a"));
    }
}

#[test]
fn random_strategy_is_never_red_team() {
    let mut rng = StdRng::seed_from_u64(11);
    let mut seen = Vec::new();
    for _ in 0..200 {
        let s = ReasoningStrategy::random(&mut rng);
        assert_ne!(s, ReasoningStrategy::RedTeam);
        if !seen.contains(&s) {
            seen.push(s);
        }
    }
    assert_eq!(seen.len(), 8);
}

#[test]
fn fresh_genotype() {
    let g = Genotype::new("Tester", ReasoningStrategy::Logical, 250_000);
    assert_eq!(g.name, "Tester");
    assert_eq!(
        g.base_instruction,
        "You are a formal logician. Your role is to construct rigorous, step-by-step arguments based on sound logical principles."
    );
    assert_eq!(g.strategy, ReasoningStrategy::Logical);
    assert_eq!(g.temperature, 250_000);
    assert_eq!(g.top_p, 1_000_000);
    assert_eq!(g.judge_feedback, None);
    assert!(!g.is_red_team);
    assert!(g.knowledge_hints.is_empty());
    let r = Genotype::red_team();
    assert!(r.is_red_team);
    assert_eq!(r.name, "Red Team Analyst");
    assert_eq!(r.strategy, ReasoningStrategy::RedTeam);
    assert_eq!(r.temperature, 500_000);
    assert!(r.base_instruction.ends_with("Never lazily agree with the consensus."));
}

#[test]
fn eight_templates() {
    let t = Genotype::templates();
    assert_eq!(t.len(), 8);
    let names: Vec<&str> = t.iter().map(|g| g.name.as_str()).collect();
    assert_eq!(
        names,
        vec![
            "Chain-of-Thought Analyst",
            "Critical Analyst",
            "Creative Thinker",
            "Logical Reasoner",
            "Edge-Case Specialist",
            "Performance Optimizer",
            "Devil's Advocate",
            "First-Principles Thinker"
        ]
    );
    let temps: Vec<u32> = t.iter().map(|g| g.temperature).collect();
    assert_eq!(temps, vec![500_000, 300_000, 900_000, 200_000, 400_000, 300_000, 700_000, 400_000]);
    for (g, s) in t.iter().zip(ReasoningStrategy::standard()) {
        assert_eq!(g.strategy, *s);
        assert!(!g.is_red_team);
    }
}

#[test]
fn random_genotype_is_a_template() {
    let mut rng = StdRng::seed_from_u64(3);
    let names: Vec<String> = Genotype::templates().into_iter().map(|g| g.name).collect();
    let mut seen = Vec::new();
    for _ in 0..200 {
        let g = Genotype::random(&mut rng);
        assert!(names.contains(&g.name));
        if !seen.contains(&g.name) {
            seen.push(g.name);
        }
    }
    assert_eq!(seen.len(), 8);
}

#[test]
fn clone_keeps_every_field() {
    let mut g = Genotype::new("Tester", ReasoningStrategy::Creative, 1);
    g.judge_feedback = Some("fb".to_string());
    g.knowledge_hints = vec!["h1".to_string(), "h2".to_string()];
    g.is_red_team = true;
    g.top_p = 9;
    let c = g.clone();
    assert_eq!(c.name, g.name);
    assert_eq!(c.base_instruction, g.base_instruction);
    assert_eq!(c.strategy, g.strategy);
    assert_eq!(c.temperature, 1);
    assert_eq!(c.top_p, 9);
    assert_eq!(c.judge_feedback, g.judge_feedback);
    assert!(c.is_red_team);
    assert_eq!(c.knowledge_hints, g.knowledge_hints);
}

#[test]
fn plain_system_prompt() {
    let g = Genotype::new("Critical Analyst", ReasoningStrategy::Critical, 300_000);
    let p = g.build_system_prompt();
    assert!(p.starts_with(
        "You are an AI reasoning agent.\nProfile: Critical Analyst\nReasoning Strategy: Critical Analysis\n\nYou are a critical analyst. Your role is to scrutinise every detail, find flaws in reasoning, and ensure the highest standard of accuracy.\n\n=== Strategy Instructions ===\nAnalyse the problem critically."
    ));
    assert!(p.contains(ReasoningStrategy::Critical.instruction()));
    assert!(!p.contains("=== Feedback From Previous Generation ==="));
    assert!(!p.contains("=== Open Conflicts"));
    assert!(p.contains(
        "Your goal is to stress-test the reasoning.\n\n=== Mandatory Verification ===\nBEFORE providing your final answer, you MUST perform ALL of these steps:\n1. State your proposed conclusion clearly.\n2. Simulate / test your conclusion: walk through EVERY premise or \nconstraint and confirm it holds under your answer.\n3."
    ));
    assert!(p.contains("7. Only present your final answer once ALL checks pass.\nLabel this section \"## Verification\" in your response.\n\nApproach the given problem"));
    assert!(p.ends_with("Provide a clear, well-structured response. Be thorough but concise."));
}

#[test]
fn system_prompt_holds_every_strategy_instruction() {
    for s in ReasoningStrategy::all() {
        let g = Genotype::new("x", *s, 0);
        assert!(g.build_system_prompt().contains(s.instruction()));
    }
}

#[test]
fn system_prompt_lists_hints_in_order() {
    let mut g = Genotype::new("x", ReasoningStrategy::Logical, 0);
    g.knowledge_hints = (1..=12).map(|i| format!("hint number {} here", i)).collect();
    let p = g.build_system_prompt();
    assert!(p.contains("\n\n=== Open Conflicts & Warnings From Prior Generations ===\nThe following issues were flagged in earlier generations. These are NOT established facts - they are unresolved problems and disagreements that YOU must investigate and resolve in your analysis:\n1. hint number 1 here\n2. hint number 2 here\n"));
    assert!(p.contains("\n12. hint number 12 here\nDo NOT blindly trust these. Verify each one against the actual problem constraints before incorporating it into your reasoning.\n\n=== Mandatory Verification ==="));
    let mut last = 0;
    for h in &g.knowledge_hints {
        let line = format!(". {}\n", h);
        assert_eq!(p.matches(&line).count(), 1);
        let at = p.find(&line).unwrap();
        assert!(at > last);
        last = at;
    }
}

#[test]
fn system_prompt_quotes_feedback() {
    let mut g = Genotype::new("x", ReasoningStrategy::Logical, 0);
    g.judge_feedback = Some("Too shallow.".to_string());
    let p = g.build_system_prompt();
    assert!(p.contains("\n\n=== Feedback From Previous Generation ===\nYour predecessor received this critique from the judge:\n\"Too shallow.\"\nYour goal is to address these specific weaknesses while retaining the strengths mentioned above.\n\n=== Mandatory Verification ==="));
    g.judge_feedback = Some(String::new());
    assert!(!g.build_system_prompt().contains("=== Feedback From Previous Generation ==="));
}

#[test]
fn ten_modifiers() {
    let m = mutation_modifiers();
    assert_eq!(m.len(), 10);
    assert_eq!(m[0], "Pay extra attention to edge cases and boundary conditions.");
    assert_eq!(m[9], "Draw parallels from other disciplines to strengthen your argument.");
}
