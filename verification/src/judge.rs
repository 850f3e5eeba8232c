//! The judges of a team's answers: who judges in which generation, what a
//! judge is asked, and how its reply is read.
//!
//! Replies are expected as JSON and parsed with `serde_json`. What the
//! parser makes of a text appears in contracts under a name; what is done
//! with the parsed reply is verified.

use vstd::prelude::*;
use crate::agent::{output_views, AgentOutput, AgentOutputView};
use crate::llm::ChatRequest;
use crate::numeral::{clamped_score, clamped_score_of, score_of_token, token_score, SCORE_MAX, SCORE_MIN};
use crate::team::TeamOutput;
use crate::text::{
    chars_of, decimal_chars, decimal_of, enclosed, enclosed_chars, optional_view, push_chars,
    push_str_chars, split_words, string_of, trim, trim_of, views_of, words_of,
};

verus! {

/// The score assumed where a judge gives none, five, in millionths.
pub const NEUTRAL_SCORE: u32 = 5_000_000;

/// The critique reported for a team without any output.
pub const NO_OUTPUTS_CRITIQUE: &'static str = "No agent outputs to evaluate.";

/// The most tokens that a judge may answer with.
pub const JUDGE_TOKEN_LIMIT: u32 = 512;

/// The temperature of every judge call, a tenth, in millionths.
pub const JUDGE_TEMPERATURE: u32 = 100_000;

/// The name of the correctness judge.
pub const CORRECTNESS_NAME: &'static str = "Correctness Judge";

/// The system prompt of the correctness judge.
pub const CORRECTNESS_SYSTEM: &'static str =
    "You are a precise, strict evaluation judge. \
                        Your sole focus is on logical and factual correctness. \
                        Output only valid JSON.";

/// The criteria that the correctness judge adds.
pub const CORRECTNESS_CRITERIA: &'static str = "\
             6. Logical Validity - Does every deductive step actually follow? \
                Are there any logical fallacies or unjustified leaps?\n\
             7. Alternative Solutions - Did the agents check whether other \
                valid solutions exist, or did they prematurely commit to one?";

/// The name of the skeptical judge.
pub const SKEPTICAL_NAME: &'static str = "Skeptical Judge";

/// The system prompt of the skeptical judge.
pub const SKEPTICAL_SYSTEM: &'static str =
    "You are a deeply skeptical evaluation judge. \
                        You assume every answer is wrong until proven right. \
                        A confident, well-formatted answer that is WRONG should \
                        score LOWER than a messy answer that is correct. \
                        Output only valid JSON.";

/// The criteria that the skeptical judge adds.
pub const SKEPTICAL_CRITERIA: &'static str = "\
             6. Overconfidence Penalty - Does the response assert correctness \
                without sufficient justification? A wrong but confident answer \
                MUST score below 4.0.\n\
             7. Verification Quality - Did the agents genuinely test their \
                answer against constraints, or merely restate their conclusion?";

/// The name of the exhaustiveness judge.
pub const EXHAUSTIVENESS_NAME: &'static str = "Exhaustiveness Judge";

/// The system prompt of the exhaustiveness judge.
pub const EXHAUSTIVENESS_SYSTEM: &'static str =
    "You are an exhaustive evaluation judge who demands \
                        that EVERY possible case be explored. An answer that \
                        only tests one hypothesis and ignores alternatives is \
                        incomplete regardless of how well-written it is. \
                        Output only valid JSON.";

/// The criteria that the exhaustiveness judge adds.
pub const EXHAUSTIVENESS_CRITERIA: &'static str = "\
             6. Exhaustive Case Analysis - Did the agents systematically \
                enumerate and test ALL possible configurations/solutions? \
                Mark down heavily if they only explored one path.\n\
             7. Counter-Hypothesis Testing - Did any agent explicitly try \
                to make an alternative solution work and show why it fails?";

/// What stands before the problem in a judge's message.
pub const JUDGE_OPENING: &'static str =
    "You are an expert evaluator assessing the quality of AI-generated responses.\n\n\
             **Problem Statement:**\n";

/// What stands between the problem and the number of agents in a judge's message.
pub const JUDGE_TEAM_SIZE: &'static str = "\n\n\
             You are evaluating a team of ";

/// The common criteria of all judges.
pub const JUDGE_CRITERIA: &'static str =
    " AI agents. \
             Rate the overall team output quality on a scale of 1.0 to 10.0.\n\n\
             Consider:\n\
             1. Correctness - Are the responses factually accurate?\n\
             2. Completeness - Do they cover all aspects of the problem?\n\
             3. Insight - Do they go beyond surface-level analysis?\n\
             4. Actionability - Are the responses practical and useful?\n\
             5. Self-consistency - Did any agent contradict themselves or others?\n";

/// The heading of the team's answers in a judge's message.
pub const JUDGE_RESPONSES: &'static str = "\n\n\
             **Team Responses:**\n";

/// The request for a JSON reply that closes a judge's message.
pub const JUDGE_FORMAT: &'static str =
    "\n\
             Respond with ONLY a JSON object: {\"score\": <number 1.0-10.0>, \"reasoning\": \"<detailed critique: what was done well, what specific logical gaps or errors exist, and what the agents should fix>\"}";

/// The three lenses under which answers are judged.
#[derive(Clone, Copy, Debug, PartialEq, Eq, Structural)]
pub enum JudgePersona {
    Correctness,
    Skeptical,
    Exhaustiveness,
}

impl JudgePersona {
    /// The name of the persona.
    pub open spec fn name_text(self) -> Seq<char> {
        match self {
            JudgePersona::Correctness => CORRECTNESS_NAME@,
            JudgePersona::Skeptical => SKEPTICAL_NAME@,
            JudgePersona::Exhaustiveness => EXHAUSTIVENESS_NAME@,
        }
    }

    /// The system prompt of the persona.
    pub open spec fn system_text(self) -> Seq<char> {
        match self {
            JudgePersona::Correctness => CORRECTNESS_SYSTEM@,
            JudgePersona::Skeptical => SKEPTICAL_SYSTEM@,
            JudgePersona::Exhaustiveness => EXHAUSTIVENESS_SYSTEM@,
        }
    }

    /// The criteria that the persona adds to the common ones.
    pub open spec fn criteria_text(self) -> Seq<char> {
        match self {
            JudgePersona::Correctness => CORRECTNESS_CRITERIA@,
            JudgePersona::Skeptical => SKEPTICAL_CRITERIA@,
            JudgePersona::Exhaustiveness => EXHAUSTIVENESS_CRITERIA@,
        }
    }

    /// The persona at a place in the rotation.
    pub open spec fn at(index: int) -> JudgePersona {
        if index % 3 == 0 {
            JudgePersona::Correctness
        } else if index % 3 == 1 {
            JudgePersona::Skeptical
        } else {
            JudgePersona::Exhaustiveness
        }
    }

    /// The name of the persona.
    pub fn name(&self) -> (r: &'static str)
        ensures
            r@ == self.name_text(),
    {
        match self {
            JudgePersona::Correctness => CORRECTNESS_NAME,
            JudgePersona::Skeptical => SKEPTICAL_NAME,
            JudgePersona::Exhaustiveness => EXHAUSTIVENESS_NAME,
        }
    }

    /// The system prompt of the persona.
    pub fn system_prompt(&self) -> (r: &'static str)
        ensures
            r@ == self.system_text(),
    {
        match self {
            JudgePersona::Correctness => CORRECTNESS_SYSTEM,
            JudgePersona::Skeptical => SKEPTICAL_SYSTEM,
            JudgePersona::Exhaustiveness => EXHAUSTIVENESS_SYSTEM,
        }
    }

    /// The criteria that the persona adds to the common ones.
    pub fn extra_criteria(&self) -> (r: &'static str)
        ensures
            r@ == self.criteria_text(),
    {
        match self {
            JudgePersona::Correctness => CORRECTNESS_CRITERIA,
            JudgePersona::Skeptical => SKEPTICAL_CRITERIA,
            JudgePersona::Exhaustiveness => EXHAUSTIVENESS_CRITERIA,
        }
    }
}

/// The two personas that judge a generation: the one at the generation's
/// place in the rotation and the one after it, so that consecutive
/// generations share one judge.
pub fn judges_for(generation: usize) -> (r: (JudgePersona, JudgePersona))
    ensures
        r.0 == JudgePersona::at(generation as int),
        r.1 == JudgePersona::at(generation + 1),
        r.0 != r.1,
{
    let k = generation % 3;
    if k == 0 {
        (JudgePersona::Correctness, JudgePersona::Skeptical)
    } else if k == 1 {
        (JudgePersona::Skeptical, JudgePersona::Exhaustiveness)
    } else {
        (JudgePersona::Exhaustiveness, JudgePersona::Correctness)
    }
}

/// The block in which the `i`-th output is shown to a judge.
pub open spec fn judged_block(outputs: Seq<AgentOutputView>, i: int) -> Seq<char> {
    let o = outputs[i];
    "--- Agent "@ + decimal_of((i + 1) as nat) + " \""@ + o.genotype_name + "\" ("@
        + o.strategy.label_text() + ") ---\n"@ + o.content + "\n\n"@
}

/// The blocks of the first `upto` outputs, as shown to a judge.
pub open spec fn judged_blocks(outputs: Seq<AgentOutputView>, upto: int) -> Seq<char>
    decreases upto,
{
    if upto <= 0 {
        Seq::empty()
    } else {
        judged_blocks(outputs, upto - 1) + judged_block(outputs, upto - 1)
    }
}

/// What a judge is asked about a team's outputs.
pub open spec fn judge_message_of(
    persona: JudgePersona,
    problem: Seq<char>,
    outputs: Seq<AgentOutputView>,
) -> Seq<char> {
    JUDGE_OPENING@ + problem + JUDGE_TEAM_SIZE@ + decimal_of(outputs.len()) + JUDGE_CRITERIA@
        + persona.criteria_text() + JUDGE_RESPONSES@ + judged_blocks(outputs, outputs.len() as int)
        + JUDGE_FORMAT@
}

/// The token budget of a judge call: the configured budget, at most 512.
pub open spec fn judge_budget(max_tokens: u32) -> u32 {
    if max_tokens < JUDGE_TOKEN_LIMIT {
        max_tokens
    } else {
        JUDGE_TOKEN_LIMIT
    }
}

/// The blocks of all of `outputs`, as shown to a judge.
pub fn render_for_judge(outputs: &Vec<AgentOutput>) -> (r: Vec<char>)
    ensures
        r@ == judged_blocks(output_views(outputs@), outputs@.len() as int),
{
    let mut r: Vec<char> = Vec::new();
    let ghost views = output_views(outputs@);
    let mut i: usize = 0;
    while i < outputs.len()
        invariant
            i <= outputs.len(),
            views == output_views(outputs@),
            r@ == judged_blocks(views, i as int),
        decreases outputs.len() - i,
    {
        let o = &outputs[i];
        let ghost before = r@;
        push_str_chars(&mut r, "--- Agent ");
        let number = decimal_chars((i as u64) + 1);
        push_chars(&mut r, &number);
        push_str_chars(&mut r, " \"");
        push_str_chars(&mut r, o.genotype_name.as_str());
        push_str_chars(&mut r, "\" (");
        push_str_chars(&mut r, o.strategy.label());
        push_str_chars(&mut r, ") ---\n");
        push_str_chars(&mut r, o.content.as_str());
        push_str_chars(&mut r, "\n\n");
        proof {
            assert(views[i as int] == o@);
            assert(r@ == before + judged_block(views, i as int));
        }
        i += 1;
    }
    r
}

/// The request that puts a team's outputs before one judge.
pub fn judge_request(
    persona: JudgePersona,
    problem: &str,
    outputs: &Vec<AgentOutput>,
    max_tokens: u32,
) -> (r: ChatRequest)
    ensures
        is_judge_request(r, persona, problem@, output_views(outputs@), max_tokens),
{
    let mut m = chars_of(JUDGE_OPENING);
    push_str_chars(&mut m, problem);
    push_str_chars(&mut m, JUDGE_TEAM_SIZE);
    let count = decimal_chars(outputs.len() as u64);
    push_chars(&mut m, &count);
    push_str_chars(&mut m, JUDGE_CRITERIA);
    push_str_chars(&mut m, persona.extra_criteria());
    push_str_chars(&mut m, JUDGE_RESPONSES);
    let blocks = render_for_judge(outputs);
    push_chars(&mut m, &blocks);
    push_str_chars(&mut m, JUDGE_FORMAT);
    ChatRequest {
        system_prompt: string_of(&chars_of(persona.system_prompt())),
        user_message: string_of(&m),
        temperature: JUDGE_TEMPERATURE,
        top_p: 1_000_000,
        max_tokens: if max_tokens < JUDGE_TOKEN_LIMIT {
            max_tokens
        } else {
            JUDGE_TOKEN_LIMIT
        },
    }
}

/// What a judge's reply holds once it is parsed as JSON.
pub ghost struct JsonReplyView {
    /// Whether the text is a JSON object.
    pub is_object: bool,
    /// The numeral of the member `score`, if the text is an object that has
    /// this member and it is a number.
    pub score: Option<Seq<char>>,
    /// The member `reasoning`, if the text is an object that has this member
    /// and it is a string.
    pub reasoning: Option<Seq<char>>,
}

/// What a judge's reply holds once it is parsed as JSON.
#[derive(Debug)]
pub struct JsonReply {
    pub is_object: bool,
    pub score: Option<String>,
    pub reasoning: Option<String>,
}

impl View for JsonReply {
    type V = JsonReplyView;

    open spec fn view(&self) -> JsonReplyView {
        JsonReplyView {
            is_object: self.is_object,
            score: optional_view(self.score),
            reasoning: optional_view(self.reasoning),
        }
    }
}

/// What `serde_json` makes of `text`, read as one JSON value: nothing if the
/// text is not JSON, else whether the value is an object, its member `score`
/// as `serde_json` prints the number, and its member `reasoning`.
pub uninterp spec fn json_reply_of(text: Seq<char>) -> Option<JsonReplyView>;

/// Parses `text` with `serde_json::from_str` as a `serde_json::Value` and
/// picks from it what a judge's reply is read for. A member that is absent
/// or of another type is reported as absent, as `Value::get` does on a value
/// that is no object. The number is handed on as text, as `serde_json`
/// prints it.
#[verifier::external_body]
pub(crate) fn parse_json_reply(text: &str) -> (r: Option<JsonReply>)
    ensures
        match r {
            Some(reply) => json_reply_of(text@) == Some(reply@),
            None => json_reply_of(text@) is None,
        },
{
    let value = serde_json::from_str::<serde_json::Value>(text).ok()?;
    let score = match value.get("score") {
        Some(serde_json::Value::Number(n)) => Some(n.to_string()),
        _ => None,
    };
    let reasoning = match value.get("reasoning") {
        Some(serde_json::Value::String(s)) => Some(s.clone()),
        _ => None,
    };
    Some(JsonReply { is_object: value.is_object(), score, reasoning })
}

/// The score and the critique that a parsed reply gives: the score is
/// raised to one or lowered to ten where it lies outside, and is neutral
/// where the reply has none; the critique is empty where the reply has none.
pub open spec fn quality_of_reply(reply: JsonReplyView) -> (u32, Seq<char>) {
    (
        match reply.score {
            Some(text) => match clamped_score(text) {
                Some(score) => score,
                None => NEUTRAL_SCORE,
            },
            None => NEUTRAL_SCORE,
        },
        match reply.reasoning {
            Some(text) => text,
            None => Seq::empty(),
        },
    )
}

/// Whether `c` is punctuation of JSON or of a code fence, which is blanked
/// before a reply is searched for a bare number.
pub open spec fn is_wrapping(c: char) -> bool {
    c == '`' || c == '{' || c == '}' || c == '"' || c == ','
}

/// `text` with every wrapping character replaced by a space.
pub open spec fn unwrapped(text: Seq<char>) -> Seq<char> {
    Seq::new(
        text.len(),
        |i: int|
            if is_wrapping(text[i]) {
                ' '
            } else {
                text[i]
            },
    )
}

/// The score of the first token that is a numeral between one and ten.
pub open spec fn first_score(tokens: Seq<Seq<char>>) -> Option<u32>
    decreases tokens.len(),
{
    if tokens.len() == 0 {
        None
    } else {
        match token_score(tokens[0]) {
            Some(score) => Some(score),
            None => first_score(tokens.drop_first()),
        }
    }
}

/// The score that a reply gives when it is read as plain text: that of its
/// first number between one and ten, else the neutral score.
pub open spec fn plain_score_of(response: Seq<char>) -> u32 {
    match first_score(words_of(unwrapped(response))) {
        Some(score) => score,
        None => NEUTRAL_SCORE,
    }
}

/// The JSON text inside a reply that wraps it in other text: from the first
/// opening brace to the last closing brace of the trimmed reply.
pub open spec fn embedded_json(response: Seq<char>) -> Option<Seq<char>> {
    enclosed(trim_of(response), '{', '}')
}

/// The score and the critique that a judge's reply gives. A reply that is a
/// JSON object is read as such. Else the part between its outermost braces
/// is, if that is JSON. Else the score is that of the first number between
/// one and ten in the reply, or neutral, and the critique is the reply as it
/// stands.
pub open spec fn quality_score_of(response: Seq<char>) -> (u32, Seq<char>) {
    let whole = json_reply_of(response);
    if whole is Some && whole->0.is_object {
        quality_of_reply(whole->0)
    } else {
        let inner = match embedded_json(response) {
            Some(text) => json_reply_of(text),
            None => None,
        };
        match inner {
            Some(reply) => quality_of_reply(reply),
            None => (plain_score_of(response), response),
        }
    }
}

/// The score and the critique that a parsed reply gives.
pub fn quality_from_reply(reply: &JsonReply) -> (r: (u32, String))
    ensures
        r.0 == quality_of_reply(reply@).0,
        r.1@ == quality_of_reply(reply@).1,
        SCORE_MIN <= r.0 <= SCORE_MAX,
{
    let score = match &reply.score {
        Some(text) => match clamped_score_of(&chars_of(text.as_str())) {
            Some(score) => score,
            None => NEUTRAL_SCORE,
        },
        None => NEUTRAL_SCORE,
    };
    let reasoning = match &reply.reasoning {
        Some(text) => text.clone(),
        None => String::new(),
    };
    (score, reasoning)
}

/// The score that a reply gives when it is read as plain text.
pub fn plain_score(response: &str) -> (r: u32)
    ensures
        r == plain_score_of(response@),
        SCORE_MIN <= r <= SCORE_MAX,
{
    let chars = chars_of(response);
    let mut cleaned: Vec<char> = Vec::new();
    let mut i: usize = 0;
    while i < chars.len()
        invariant
            i <= chars.len(),
            chars@ == response@,
            cleaned@ == unwrapped(chars@).take(i as int),
        decreases chars.len() - i,
    {
        let c = chars[i];
        if c == '`' || c == '{' || c == '}' || c == '"' || c == ',' {
            cleaned.push(' ');
        } else {
            cleaned.push(c);
        }
        proof {
            assert(cleaned@ =~= unwrapped(chars@).take(i + 1));
        }
        i += 1;
    }
    proof {
        assert(unwrapped(chars@).take(chars.len() as int) == unwrapped(chars@));
    }
    let tokens = split_words(&cleaned);
    let ghost all = views_of(tokens@);
    let mut k: usize = 0;
    proof {
        assert(all.skip(0) == all);
    }
    while k < tokens.len()
        invariant
            k <= tokens.len(),
            all == views_of(tokens@),
            all == words_of(unwrapped(response@)),
            first_score(all) == first_score(all.skip(k as int)),
        decreases tokens.len() - k,
    {
        proof {
            let rest = all.skip(k as int);
            assert(rest[0] == tokens@[k as int]@);
            assert(rest.drop_first() == all.skip(k + 1));
        }
        match score_of_token(&tokens[k]) {
            Some(score) => {
                return score;
            },
            None => {},
        }
        k += 1;
    }
    NEUTRAL_SCORE
}

/// Reads a judge's reply: its score, between one and ten, and its
/// critique.
pub fn parse_quality_score(response: &str) -> (r: (u32, String))
    ensures
        r.0 == quality_score_of(response@).0,
        r.1@ == quality_score_of(response@).1,
        SCORE_MIN <= r.0 <= SCORE_MAX,
{
    match parse_json_reply(response) {
        Some(reply) => {
            if reply.is_object {
                return quality_from_reply(&reply);
            }
        },
        None => {},
    }
    let trimmed = trim(&chars_of(response));
    match enclosed_chars(&trimmed, '{', '}') {
        Some(inner) => {
            let text = string_of(&inner);
            match parse_json_reply(text.as_str()) {
                Some(reply) => {
                    return quality_from_reply(&reply);
                },
                None => {},
            }
        },
        None => {},
    }
    (plain_score(response), string_of(&chars_of(response)))
}

/// The score and the critique of a pair of judgements: the mean of the two
/// scores, rounded down, and both critiques under the names of their
/// judges. A judge that gave no judgement counts with the neutral score and
/// an empty critique.
pub open spec fn combined_quality(
    first: JudgePersona,
    first_judgement: Option<(u32, Seq<char>)>,
    second: JudgePersona,
    second_judgement: Option<(u32, Seq<char>)>,
) -> (u32, Seq<char>) {
    let a = match first_judgement {
        Some(j) => j,
        None => (NEUTRAL_SCORE, Seq::empty()),
    };
    let b = match second_judgement {
        Some(j) => j,
        None => (NEUTRAL_SCORE, Seq::empty()),
    };
    (
        ((a.0 + b.0) / 2) as u32,
        "["@ + first.name_text() + "] "@ + a.1 + "\n\n["@ + second.name_text() + "] "@ + b.1,
    )
}

/// The view of an optional judgement.
pub open spec fn judgement_view(j: Option<(u32, String)>) -> Option<(u32, Seq<char>)> {
    match j {
        Some((score, critique)) => Some((score, critique@)),
        None => None,
    }
}

/// Combines the judgements of the two judges of a generation.
pub fn combine_judgements(
    first: JudgePersona,
    first_judgement: Option<(u32, String)>,
    second: JudgePersona,
    second_judgement: Option<(u32, String)>,
) -> (r: (u32, String))
    ensures
        r.0 == combined_quality(
            first,
            judgement_view(first_judgement),
            second,
            judgement_view(second_judgement),
        ).0,
        r.1@ == combined_quality(
            first,
            judgement_view(first_judgement),
            second,
            judgement_view(second_judgement),
        ).1,
{
    let (s1, c1) = match first_judgement {
        Some((s, c)) => (s, c),
        None => (NEUTRAL_SCORE, String::new()),
    };
    let (s2, c2) = match second_judgement {
        Some((s, c)) => (s, c),
        None => (NEUTRAL_SCORE, String::new()),
    };
    let score = ((s1 as u64 + s2 as u64) / 2) as u32;
    let mut critique = chars_of("[");
    push_str_chars(&mut critique, first.name());
    push_str_chars(&mut critique, "] ");
    push_str_chars(&mut critique, c1.as_str());
    push_str_chars(&mut critique, "\n\n[");
    push_str_chars(&mut critique, second.name());
    push_str_chars(&mut critique, "] ");
    push_str_chars(&mut critique, c2.as_str());
    (score, string_of(&critique))
}

/// How the quality of a team's output is found.
#[derive(Debug)]
pub enum QualityPlan {
    /// Without asking: a team without outputs has the lowest quality.
    Settled { score: u32, critique: String },
    /// By asking two judges, side by side.
    Ask { first: JudgePersona, first_request: ChatRequest, second: JudgePersona, second_request: ChatRequest },
}

/// Whether `r` is the request that puts `outputs` before `persona`.
pub open spec fn is_judge_request(
    r: ChatRequest,
    persona: JudgePersona,
    problem: Seq<char>,
    outputs: Seq<AgentOutputView>,
    max_tokens: u32,
) -> bool {
    &&& r.system_prompt@ == persona.system_text()
    &&& r.user_message@ == judge_message_of(persona, problem, outputs)
    &&& r.temperature == JUDGE_TEMPERATURE
    &&& r.top_p == 1_000_000
    &&& r.max_tokens == judge_budget(max_tokens)
}

/// Whether `plan` is the plan for judging `output` in a generation: a
/// team without outputs is settled at the lowest score, any other is put
/// before the two judges of the generation.
pub open spec fn is_quality_plan(
    plan: QualityPlan,
    output: crate::team::TeamOutputView,
    problem: Seq<char>,
    generation: int,
    max_tokens: u32,
) -> bool {
    match plan {
        QualityPlan::Settled { score, critique } => {
            &&& output.agent_outputs.len() == 0
            &&& score == SCORE_MIN
            &&& critique@ == NO_OUTPUTS_CRITIQUE@
        },
        QualityPlan::Ask { first, first_request, second, second_request } => {
            &&& output.agent_outputs.len() > 0
            &&& first == JudgePersona::at(generation)
            &&& second == JudgePersona::at(generation + 1)
            &&& is_judge_request(first_request, first, problem, output.agent_outputs, max_tokens)
            &&& is_judge_request(second_request, second, problem, output.agent_outputs, max_tokens)
        },
    }
}

/// Plans the judging of a team's output in a generation: a team without
/// outputs is settled at the lowest score, any other is put before the two
/// judges of the generation.
pub fn plan_quality(output: &TeamOutput, problem: &str, generation: usize, max_tokens: u32) -> (plan:
    QualityPlan)
    ensures
        is_quality_plan(plan, output@, problem@, generation as int, max_tokens),
{
    if output.agent_outputs.len() == 0 {
        return QualityPlan::Settled {
            score: SCORE_MIN,
            critique: string_of(&chars_of(NO_OUTPUTS_CRITIQUE)),
        };
    }
    let (first, second) = judges_for(generation);
    QualityPlan::Ask {
        first,
        first_request: judge_request(first, problem, &output.agent_outputs, max_tokens),
        second,
        second_request: judge_request(second, problem, &output.agent_outputs, max_tokens),
    }
}

/// The judgement that a judge's call came to: none if the call failed.
pub fn judgement_of(reply: Option<&str>) -> (r: Option<(u32, String)>)
    ensures
        match reply {
            Some(text) => judgement_view(r) == Some(quality_score_of(text@)),
            None => r is None,
        },
        r matches Some(j) ==> SCORE_MIN <= j.0 <= SCORE_MAX,
{
    match reply {
        Some(text) => Some(parse_quality_score(text)),
        None => None,
    }
}

} // verus!
