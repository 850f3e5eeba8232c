use emas::agent::AgentOutput;
use emas::genotype::ReasoningStrategy;
use emas::judge::{
    combine_judgements, judge_request, judgement_of, judges_for, parse_quality_score, plain_score,
    plan_quality, quality_from_reply, JsonReply, JudgePersona, QualityPlan,
};
use emas::numeral::{clamped_score_of, score_of_token};
use emas::team::TeamOutput;

fn chars(s: &str) -> Vec<char> {
    s.chars().collect()
}

fn as_float(score: u32) -> f64 {
    score as f64 / 1_000_000.0
}

fn output(name: &str, strategy: ReasoningStrategy, content: &str) -> AgentOutput {
    AgentOutput {
        agent_id: 7,
        genotype_name: name.to_string(),
        strategy,
        content: content.to_string(),
        tokens_used: 10,
        elapsed: 5,
    }
}

fn team_output(outputs: Vec<AgentOutput>) -> TeamOutput {
    TeamOutput {
        team_id: 1,
        team_name: "Alpha".to_string(),
        agent_outputs: outputs,
        total_tokens: 0,
        total_elapsed: 0,
        warnings: Vec::new(),
    }
}

#[test]
fn parse_json_score() {
    let input = r#"{"score": 7.5, "reasoning": "Good coverage."}"#;
    let (score, reasoning) = parse_quality_score(input);
    assert!((as_float(score) - 7.5).abs() < f64::EPSILON);
    assert_eq!(reasoning, "Good coverage.");
}

#[test]
fn parse_bare_number() {
    assert!((as_float(parse_quality_score("8.2").0) - 8.2).abs() < f64::EPSILON);
}

#[test]
fn parse_wrapped_json() {
    let input = "```json\n{\"score\": 9.0, \"reasoning\": \"Excellent.\"}\n```";
    let (score, _) = parse_quality_score(input);
    assert!((as_float(score) - 9.0).abs() < f64::EPSILON);
}

#[test]
fn parse_fallback() {
    assert!((as_float(parse_quality_score("no numbers here").0) - 5.0).abs() < f64::EPSILON);
}

#[test]
fn judge_reply_round_trip() {
    let (score, reasoning) = parse_quality_score("{\"score\": 7.5, \"reasoning\": \"ok\"}");
    assert_eq!(score, 7_500_000);
    assert_eq!(reasoning, "ok");
    let raw = "the answers were fine overall";
    let (score, critique) = parse_quality_score(raw);
    assert_eq!(score, 5_000_000);
    assert_eq!(critique, raw);
}

#[test]
fn json_score_is_clamped() {
    assert_eq!(parse_quality_score("{\"score\": 15, \"reasoning\": \"x\"}").0, 10_000_000);
    assert_eq!(parse_quality_score("{\"score\": -3.5, \"reasoning\": \"x\"}").0, 1_000_000);
    assert_eq!(parse_quality_score("{\"score\": 0.25}").0, 1_000_000);
    assert_eq!(parse_quality_score("{\"score\": 1e300}").0, 10_000_000);
    assert_eq!(parse_quality_score("{\"score\": 1e-300}").0, 1_000_000);
    assert_eq!(parse_quality_score("{\"score\": 0}").0, 1_000_000);
}

#[test]
fn json_without_score_is_neutral() {
    let (score, reasoning) = parse_quality_score("{\"reasoning\": \"no score given\"}");
    assert_eq!(score, 5_000_000);
    assert_eq!(reasoning, "no score given");
    let (score, reasoning) = parse_quality_score("{\"score\": \"high\"}");
    assert_eq!(score, 5_000_000);
    assert_eq!(reasoning, "");
    let (score, reasoning) = parse_quality_score("{}");
    assert_eq!(score, 5_000_000);
    assert_eq!(reasoning, "");
}

#[test]
fn json_that_is_no_object_falls_through() {
    let (score, critique) = parse_quality_score("[7.5]");
    assert_eq!(score, 5_000_000);
    assert_eq!(critique, "[7.5]");
    let (score, critique) = parse_quality_score("\"9\"");
    assert_eq!(score, 9_000_000);
    assert_eq!(critique, "\"9\"");
}

#[test]
fn embedded_json_wins_over_plain_numbers() {
    let input = "I give 3 points. {\"score\": 6.25, \"reasoning\": \"mixed\"} Thanks!";
    let (score, reasoning) = parse_quality_score(input);
    assert_eq!(score, 6_250_000);
    assert_eq!(reasoning, "mixed");
}

#[test]
fn braces_in_wrong_order_are_read_as_text() {
    let input = "} score 4.5 {";
    let (score, critique) = parse_quality_score(input);
    assert_eq!(score, 4_500_000);
    assert_eq!(critique, input);
}

#[test]
fn broken_json_falls_back_to_first_number_in_range() {
    let input = "{\"score\": 8.75, \"reasoning\": \"unterminated";
    let (score, critique) = parse_quality_score(input);
    assert_eq!(score, 8_750_000);
    assert_eq!(critique, input);
    assert_eq!(plain_score("Rated 42 of 100, so 4.2 it is"), 4_200_000);
    assert_eq!(plain_score("0.5 then 11 then 10"), 10_000_000);
    assert_eq!(plain_score("`7`,\"x\""), 7_000_000);
    assert_eq!(plain_score(""), 5_000_000);
}

#[test]
fn quality_from_reply_reads_fields() {
    let reply = JsonReply {
        is_object: true,
        score: Some("7.5".to_string()),
        reasoning: Some("fine".to_string()),
    };
    let (score, reasoning) = quality_from_reply(&reply);
    assert_eq!(score, 7_500_000);
    assert_eq!(reasoning, "fine");
    let reply = JsonReply { is_object: true, score: None, reasoning: None };
    let (score, reasoning) = quality_from_reply(&reply);
    assert_eq!(score, 5_000_000);
    assert_eq!(reasoning, "");
    let reply = JsonReply { is_object: true, score: Some("abc".to_string()), reasoning: None };
    assert_eq!(quality_from_reply(&reply).0, 5_000_000);
}

#[test]
fn tokens_between_one_and_ten() {
    assert_eq!(score_of_token(&chars("1")), Some(1_000_000));
    assert_eq!(score_of_token(&chars("10")), Some(10_000_000));
    assert_eq!(score_of_token(&chars("10.000")), Some(10_000_000));
    assert_eq!(score_of_token(&chars("8.2")), Some(8_200_000));
    assert_eq!(score_of_token(&chars("+7")), Some(7_000_000));
    assert_eq!(score_of_token(&chars("7.")), Some(7_000_000));
    assert_eq!(score_of_token(&chars("007.5")), Some(7_500_000));
    assert_eq!(score_of_token(&chars("1e1")), Some(10_000_000));
    assert_eq!(score_of_token(&chars("0.75E+1")), Some(7_500_000));
    assert_eq!(score_of_token(&chars("750e-2")), Some(7_500_000));
    assert_eq!(score_of_token(&chars(".5e1")), Some(5_000_000));
    assert_eq!(score_of_token(&chars("3.14159265358979")), Some(3_141_592));
    assert_eq!(score_of_token(&chars("9.9999999")), Some(9_999_999));
}

#[test]
fn tokens_outside_the_range_or_no_numbers() {
    assert_eq!(score_of_token(&chars("0.9999999")), None);
    assert_eq!(score_of_token(&chars("10.0000001")), None);
    assert_eq!(score_of_token(&chars("11")), None);
    assert_eq!(score_of_token(&chars("0")), None);
    assert_eq!(score_of_token(&chars("-5")), None);
    assert_eq!(score_of_token(&chars("5e")), None);
    assert_eq!(score_of_token(&chars("e5")), None);
    assert_eq!(score_of_token(&chars(".")), None);
    assert_eq!(score_of_token(&chars("")), None);
    assert_eq!(score_of_token(&chars("+")), None);
    assert_eq!(score_of_token(&chars("7/10")), None);
    assert_eq!(score_of_token(&chars("5.5.5")), None);
    assert_eq!(score_of_token(&chars("1e99999999999999999999999999999999999999999")), None);
    assert_eq!(score_of_token(&chars("1e-99999999999999999999999999999999999999999")), None);
    assert_eq!(score_of_token(&chars("inf")), None);
    assert_eq!(score_of_token(&chars("nan")), None);
}

#[test]
fn clamped_scores_of_numerals() {
    assert_eq!(clamped_score_of(&chars("7.5")), Some(7_500_000));
    assert_eq!(clamped_score_of(&chars("100")), Some(10_000_000));
    assert_eq!(clamped_score_of(&chars("0.001")), Some(1_000_000));
    assert_eq!(clamped_score_of(&chars("-8")), Some(1_000_000));
    assert_eq!(clamped_score_of(&chars("0.0")), Some(1_000_000));
    assert_eq!(clamped_score_of(&chars("1.5e0")), Some(1_500_000));
    assert_eq!(clamped_score_of(&chars("seven")), None);
}

#[test]
fn judges_rotate_with_the_generation() {
    assert_eq!(judges_for(0), (JudgePersona::Correctness, JudgePersona::Skeptical));
    assert_eq!(judges_for(1), (JudgePersona::Skeptical, JudgePersona::Exhaustiveness));
    assert_eq!(judges_for(2), (JudgePersona::Exhaustiveness, JudgePersona::Correctness));
    assert_eq!(judges_for(3), (JudgePersona::Correctness, JudgePersona::Skeptical));
    assert_eq!(judges_for(usize::MAX).0, judges_for(usize::MAX % 3).0);
    for g in 0..20 {
        assert_eq!(judges_for(g).1, judges_for(g + 1).0);
    }
}

#[test]
fn judge_request_holds_problem_and_answers() {
    let outputs = vec![
        output("Critical Analyst", ReasoningStrategy::Critical, "First answer."),
        output("Red Team Analyst", ReasoningStrategy::RedTeam, "Second answer."),
    ];
    let r = judge_request(JudgePersona::Skeptical, "What is 2+2?", &outputs, 4096);
    assert!(r.system_prompt.starts_with("You are a deeply skeptical evaluation judge. You assume"));
    assert!(r.system_prompt.ends_with("Output only valid JSON."));
    assert!(r.user_message.starts_with(
        "You are an expert evaluator assessing the quality of AI-generated responses.\n\n**Problem Statement:**\nWhat is 2+2?\n\nYou are evaluating a team of 2 AI agents. Rate the overall team output quality on a scale of 1.0 to 10.0.\n\nConsider:\n1. Correctness"
    ));
    assert!(r.user_message.contains(
        "5. Self-consistency - Did any agent contradict themselves or others?\n6. Overconfidence Penalty - Does the response assert correctness without sufficient justification? A wrong but confident answer MUST score below 4.0.\n7. Verification Quality"
    ));
    assert!(r.user_message.contains(
        "\n\n**Team Responses:**\n--- Agent 1 \"Critical Analyst\" (Critical Analysis) ---\nFirst answer.\n\n--- Agent 2 \"Red Team Analyst\" (Red Team) ---\nSecond answer.\n\n\nRespond with ONLY a JSON object: {\"score\": <number 1.0-10.0>, \"reasoning\": \"<detailed critique:"
    ));
    assert!(r.user_message.ends_with("and what the agents should fix>\"}"));
    assert_eq!(r.temperature, 100_000);
    assert_eq!(r.top_p, 1_000_000);
    assert_eq!(r.max_tokens, 512);
    let r = judge_request(JudgePersona::Correctness, "p", &outputs, 100);
    assert_eq!(r.max_tokens, 100);
}

#[test]
fn quality_of_no_outputs_is_settled() {
    match plan_quality(&team_output(Vec::new()), "p", 0, 1024) {
        QualityPlan::Settled { score, critique } => {
            assert_eq!(score, 1_000_000);
            assert_eq!(critique, "No agent outputs to evaluate.");
        }
        QualityPlan::Ask { .. } => panic!("nothing to ask about"),
    }
}

#[test]
fn quality_of_outputs_is_asked_of_two_judges() {
    let out = team_output(vec![output("A", ReasoningStrategy::Logical, "x")]);
    match plan_quality(&out, "p", 4, 1024) {
        QualityPlan::Ask { first, first_request, second, second_request } => {
            assert_eq!(first, JudgePersona::Skeptical);
            assert_eq!(second, JudgePersona::Exhaustiveness);
            assert!(first_request.system_prompt.contains("skeptical"));
            assert!(second_request.system_prompt.contains("exhaustive"));
            assert!(second_request.user_message.contains("6. Exhaustive Case Analysis"));
        }
        QualityPlan::Settled { .. } => panic!("there is an output to judge"),
    }
}

#[test]
fn judgements_are_averaged_and_labelled() {
    let (score, critique) = combine_judgements(
        JudgePersona::Correctness,
        Some((7_000_000, "good".to_string())),
        JudgePersona::Skeptical,
        Some((8_500_000, "meh".to_string())),
    );
    assert_eq!(score, 7_750_000);
    assert_eq!(critique, "[Correctness Judge] good\n\n[Skeptical Judge] meh");
    let (score, critique) = combine_judgements(
        JudgePersona::Exhaustiveness,
        None,
        JudgePersona::Correctness,
        Some((9_000_000, "fine".to_string())),
    );
    assert_eq!(score, 7_000_000);
    assert_eq!(critique, "[Exhaustiveness Judge] \n\n[Correctness Judge] fine");
    let (score, _) = combine_judgements(JudgePersona::Correctness, None, JudgePersona::Skeptical, None);
    assert_eq!(score, 5_000_000);
}

#[test]
fn failed_judge_call_gives_no_judgement() {
    assert!(judgement_of(None).is_none());
    let j = judgement_of(Some("{\"score\": 2, \"reasoning\": \"poor\"}"));
    assert_eq!(j, Some((2_000_000, "poor".to_string())));
}
