//! Genotypes: the heritable configuration of one reasoning agent, and the
//! system prompt that is built from it.

use vstd::prelude::*;
use rand::rngs::StdRng;
use crate::chance::{pick, pick_owned};
use crate::text::{
    chars_of, clone_optional, clone_strings, decimal_chars, decimal_of, has_subseq,
    lemma_marked_text_occurs_once, lemma_occurs_between, lemma_occurs_within, occurs_at, optional_view, push_chars, push_str_chars, string_of, string_views,
};

verus! {

/// One, in millionths: temperatures, probabilities and scores are held as
/// whole numbers of millionths.
pub const UNIT: u32 = 1_000_000;

/// The instruction block of the chain-of-thought strategy.
pub const CHAIN_OF_THOUGHT_INSTRUCTION: &'static str = "\
Break the problem down step-by-step. Show your reasoning at each stage. \
Number your steps clearly so the reader can follow your thought process.";

/// The instruction block of the critical strategy.
pub const CRITICAL_INSTRUCTION: &'static str = "\
Analyse the problem critically. Scrutinise every claim, look for hidden assumptions, \
logical gaps, and potential flaws. Your goal is to stress-test the reasoning.";

/// The instruction block of the creative strategy.
pub const CREATIVE_INSTRUCTION: &'static str = "\
Think laterally and creatively. Explore unconventional approaches, draw analogies \
from unrelated domains, and generate novel insights that others might miss.";

/// The instruction block of the logical strategy.
pub const LOGICAL_INSTRUCTION: &'static str = "\
Use strict formal logic. Start from axioms or clearly stated premises and build \
your argument through valid deductive or inductive steps.";

/// The instruction block of the edge-case strategy.
pub const EDGE_CASE_INSTRUCTION: &'static str = "\
Focus relentlessly on edge cases, corner cases, and boundary conditions. Consider \
what could go wrong, what inputs might break assumptions, and where pitfalls hide.";

/// The instruction block of the performance strategy.
pub const PERFORMANCE_INSTRUCTION: &'static str = "\
Prioritise performance, efficiency, and optimisation. Analyse time and space \
complexity, identify bottlenecks, and suggest benchmarks or profiling strategies.";

/// The instruction block of the devil's-advocate strategy.
pub const DEVILS_ADVOCATE_INSTRUCTION: &'static str = "\
Argue against the most obvious or popular solution. Find counter-examples, surface \
weaknesses, and present compelling alternative viewpoints.";

/// The instruction block of the first-principles strategy.
pub const FIRST_PRINCIPLES_INSTRUCTION: &'static str = "\
Reason from first principles. Decompose the problem into its most fundamental \
truths, discard assumptions, and reconstruct the answer from the ground up.";

/// The instruction block of the red-team strategy.
pub const RED_TEAM_INSTRUCTION: &'static str = "\
You are a Red-Team adversarial analyst. DO NOT verify or confirm the other \
agents' work. Instead:
\
1. Your PRIMARY goal is to prove there is MORE THAN ONE valid solution. \
Exhaustively enumerate every possible configuration / assignment and test \
each one against the constraints.
\
2. If you find a second valid solution the others missed, present it with \
full proof.
\
3. If you CANNOT find a second valid solution, you must explicitly show \
why every other possible configuration is impossible - walk through each \
alternative and show which constraint it violates.
\
4. NEVER say 'the agents are correct' without first completing step 3. \
Lazily agreeing is a failure of your role.";

/// The role of a fresh chain-of-thought genotype.
pub const CHAIN_OF_THOUGHT_ROLE: &'static str =
    "You are a methodical analyst. Walk through problems one step at a time.";

/// The role of a fresh critical genotype.
pub const CRITICAL_ROLE: &'static str =
    "You are a critical analyst. Your role is to scrutinise every detail, \
     find flaws in reasoning, and ensure the highest standard of accuracy.";

/// The role of a fresh creative genotype.
pub const CREATIVE_ROLE: &'static str =
    "You are a creative thinker. Your role is to explore unconventional \
     approaches, think outside the box, and generate novel insights.";

/// The role of a fresh logical genotype.
pub const LOGICAL_ROLE: &'static str =
    "You are a formal logician. Your role is to construct rigorous, \
     step-by-step arguments based on sound logical principles.";

/// The role of a fresh edge-case genotype.
pub const EDGE_CASE_ROLE: &'static str =
    "You are an edge-case specialist. Your role is to find the inputs, \
     conditions, and scenarios that break naive assumptions.";

/// The role of a fresh performance genotype.
pub const PERFORMANCE_ROLE: &'static str =
    "You are a performance engineer. Your role is to optimise for speed, \
     memory, and scalability while maintaining correctness.";

/// The role of a fresh devil's-advocate genotype.
pub const DEVILS_ADVOCATE_ROLE: &'static str =
    "You are a devil's advocate. Your role is to argue against the \
     obvious solution and surface hidden weaknesses.";

/// The role of a fresh first-principles genotype.
pub const FIRST_PRINCIPLES_ROLE: &'static str =
    "You are a first-principles thinker. Your role is to strip away \
     assumptions and rebuild understanding from fundamental truths.";

/// The role of a fresh red-team genotype.
pub const RED_TEAM_ROLE: &'static str =
    "You are a Red-Team adversarial analyst. Your role is NOT to verify \
     other agents' answers. Instead, you must prove that alternative \
     solutions exist, or rigorously show why every other possibility \
     is impossible. Never lazily agree with the consensus.";

/// The name under which every red-team genotype is created.
pub const RED_TEAM_NAME: &'static str = "Red Team Analyst";

/// What opens a system prompt, up to the genotype's name.
pub const PROMPT_PROFILE: &'static str = "You are an AI reasoning agent.\nProfile: ";

/// What stands between the name and the strategy's label in a system prompt.
pub const PROMPT_STRATEGY: &'static str = "\nReasoning Strategy: ";

/// The blank line between the strategy's label and the base instruction.
pub const PROMPT_GAP: &'static str = "\n\n";

/// The heading of the strategy's instruction block.
pub const PROMPT_INSTRUCTIONS: &'static str = "\n\n=== Strategy Instructions ===\n";

/// What stands before the judge's critique in the feedback block.
pub const FEEDBACK_OPENING: &'static str =
    "\n\n=== Feedback From Previous Generation ===\n\
     Your predecessor received this critique from the judge:\n\
     \"";

/// What stands after the judge's critique in the feedback block.
pub const FEEDBACK_CLOSING: &'static str =
    "\"\n\
     Your goal is to address these specific weaknesses while \
     retaining the strengths mentioned above.";

/// What stands before the numbered hints in the hint block.
pub const HINTS_OPENING: &'static str =
    "\n\n=== Open Conflicts & Warnings From Prior Generations ===\n\
     The following issues were flagged in earlier generations. \
     These are NOT established facts - they are unresolved \
     problems and disagreements that YOU must investigate \
     and resolve in your analysis:\n";

/// What stands after the numbered hints in the hint block.
pub const HINTS_CLOSING: &'static str =
    "Do NOT blindly trust these. Verify each one against the actual \
     problem constraints before incorporating it into your reasoning.";

/// The verification protocol that every agent is held to.
pub const VERIFICATION_PROTOCOL: &'static str =
    "\n\n=== Mandatory Verification ===\n\
     BEFORE providing your final answer, you MUST perform ALL of these steps:\n\
     1. State your proposed conclusion clearly.\n\
     2. Simulate / test your conclusion: walk through EVERY premise or \n\
        constraint and confirm it holds under your answer.\n\
     3. If any check fails, revise your answer and re-verify.\n\
     4. **Counter-Hypothesis Test**: Now assume your conclusion is WRONG.\n\
        Pick the most plausible alternative answer and try to make it \n\
        work by walking through every premise / constraint again.\n\
     5. If the counter-hypothesis ALSO satisfies all constraints, your \n\
        final answer MUST declare the problem ambiguous and present \n\
        BOTH valid solutions.\n\
     6. If the counter-hypothesis fails, state exactly which constraint \n\
        it violates so the reader can see it was tested.\n\
     7. Only present your final answer once ALL checks pass.\n\
     Label this section \"## Verification\" in your response.";

/// What closes a system prompt.
pub const PROMPT_CLOSING: &'static str =
    "\n\nApproach the given problem using your assigned reasoning strategy. \
     Provide a clear, well-structured response. Be thorough but concise.";

/// The suffix that a genotype's name gets when mutation changes its strategy.
pub const MUTATED_SUFFIX: &'static str = " (mutated)";

/// The number of modifier sentences that mutation draws from.
pub const MODIFIER_COUNT: usize = 10;

/// The `i`-th modifier sentence.
pub open spec fn modifier(i: int) -> Seq<char> {
    if i == 0 {
        "Pay extra attention to edge cases and boundary conditions."@
    } else if i == 1 {
        "Prioritise conciseness and clarity in your response."@
    } else if i == 2 {
        "Consider real-world practical implications."@
    } else if i == 3 {
        "Look for non-obvious connections and patterns."@
    } else if i == 4 {
        "Question your own assumptions at each step."@
    } else if i == 5 {
        "Consider the problem from multiple stakeholder perspectives."@
    } else if i == 6 {
        "Focus on providing actionable, concrete recommendations."@
    } else if i == 7 {
        "Emphasise quantitative analysis where possible."@
    } else if i == 8 {
        "Think about failure modes and how to mitigate them."@
    } else {
        "Draw parallels from other disciplines to strengthen your argument."@
    }
}

/// Whether `text` is one of the modifier sentences.
pub open spec fn is_modifier(text: Seq<char>) -> bool {
    exists|i: int| 0 <= i < MODIFIER_COUNT && text == modifier(i)
}

/// The modifier sentences that mutation may append to a base instruction.
pub fn mutation_modifiers() -> (r: &'static [&'static str])
    ensures
        r@.len() == MODIFIER_COUNT,
        forall|i: int| 0 <= i < MODIFIER_COUNT ==> (#[trigger] r@[i])@ == modifier(i),
{
    &[
        "Pay extra attention to edge cases and boundary conditions.",
        "Prioritise conciseness and clarity in your response.",
        "Consider real-world practical implications.",
        "Look for non-obvious connections and patterns.",
        "Question your own assumptions at each step.",
        "Consider the problem from multiple stakeholder perspectives.",
        "Focus on providing actionable, concrete recommendations.",
        "Emphasise quantitative analysis where possible.",
        "Think about failure modes and how to mitigate them.",
        "Draw parallels from other disciplines to strengthen your argument.",
    ]
}

/// The ways of reasoning that an agent can be told to follow.
#[derive(Clone, Copy, Debug, PartialEq, Eq, Hash, Structural)]
pub enum ReasoningStrategy {
    ChainOfThought,
    Critical,
    Creative,
    Logical,
    EdgeCaseAnalysis,
    PerformanceFocus,
    DevilsAdvocate,
    FirstPrinciples,
    RedTeam,
}

/// Every strategy, the adversarial one last.
pub open spec fn all_strategies() -> Seq<ReasoningStrategy> {
    seq![
        ReasoningStrategy::ChainOfThought,
        ReasoningStrategy::Critical,
        ReasoningStrategy::Creative,
        ReasoningStrategy::Logical,
        ReasoningStrategy::EdgeCaseAnalysis,
        ReasoningStrategy::PerformanceFocus,
        ReasoningStrategy::DevilsAdvocate,
        ReasoningStrategy::FirstPrinciples,
        ReasoningStrategy::RedTeam,
    ]
}

/// The strategies that seeding and mutation draw from: all but the
/// adversarial one.
pub open spec fn standard_strategies() -> Seq<ReasoningStrategy> {
    seq![
        ReasoningStrategy::ChainOfThought,
        ReasoningStrategy::Critical,
        ReasoningStrategy::Creative,
        ReasoningStrategy::Logical,
        ReasoningStrategy::EdgeCaseAnalysis,
        ReasoningStrategy::PerformanceFocus,
        ReasoningStrategy::DevilsAdvocate,
        ReasoningStrategy::FirstPrinciples,
    ]
}

impl ReasoningStrategy {
    /// The instruction block that the strategy puts into a system prompt.
    pub open spec fn instruction_text(self) -> Seq<char> {
        match self {
            ReasoningStrategy::ChainOfThought => CHAIN_OF_THOUGHT_INSTRUCTION@,
            ReasoningStrategy::Critical => CRITICAL_INSTRUCTION@,
            ReasoningStrategy::Creative => CREATIVE_INSTRUCTION@,
            ReasoningStrategy::Logical => LOGICAL_INSTRUCTION@,
            ReasoningStrategy::EdgeCaseAnalysis => EDGE_CASE_INSTRUCTION@,
            ReasoningStrategy::PerformanceFocus => PERFORMANCE_INSTRUCTION@,
            ReasoningStrategy::DevilsAdvocate => DEVILS_ADVOCATE_INSTRUCTION@,
            ReasoningStrategy::FirstPrinciples => FIRST_PRINCIPLES_INSTRUCTION@,
            ReasoningStrategy::RedTeam => RED_TEAM_INSTRUCTION@,
        }
    }

    /// The name under which the strategy is shown.
    pub open spec fn label_text(self) -> Seq<char> {
        match self {
            ReasoningStrategy::ChainOfThought => "Chain-of-Thought"@,
            ReasoningStrategy::Critical => "Critical Analysis"@,
            ReasoningStrategy::Creative => "Creative / Lateral"@,
            ReasoningStrategy::Logical => "Strict Logic"@,
            ReasoningStrategy::EdgeCaseAnalysis => "Edge-Case Analysis"@,
            ReasoningStrategy::PerformanceFocus => "Performance Focus"@,
            ReasoningStrategy::DevilsAdvocate => "Devil's Advocate"@,
            ReasoningStrategy::FirstPrinciples => "First Principles"@,
            ReasoningStrategy::RedTeam => "Red Team"@,
        }
    }

    /// The role description that a fresh genotype of the strategy starts
    /// from.
    pub open spec fn role_text(self) -> Seq<char> {
        match self {
            ReasoningStrategy::ChainOfThought => CHAIN_OF_THOUGHT_ROLE@,
            ReasoningStrategy::Critical => CRITICAL_ROLE@,
            ReasoningStrategy::Creative => CREATIVE_ROLE@,
            ReasoningStrategy::Logical => LOGICAL_ROLE@,
            ReasoningStrategy::EdgeCaseAnalysis => EDGE_CASE_ROLE@,
            ReasoningStrategy::PerformanceFocus => PERFORMANCE_ROLE@,
            ReasoningStrategy::DevilsAdvocate => DEVILS_ADVOCATE_ROLE@,
            ReasoningStrategy::FirstPrinciples => FIRST_PRINCIPLES_ROLE@,
            ReasoningStrategy::RedTeam => RED_TEAM_ROLE@,
        }
    }

    /// Every strategy.
    pub fn all() -> (r: &'static [ReasoningStrategy])
        ensures
            r@ == all_strategies(),
    {
        &[
            ReasoningStrategy::ChainOfThought,
            ReasoningStrategy::Critical,
            ReasoningStrategy::Creative,
            ReasoningStrategy::Logical,
            ReasoningStrategy::EdgeCaseAnalysis,
            ReasoningStrategy::PerformanceFocus,
            ReasoningStrategy::DevilsAdvocate,
            ReasoningStrategy::FirstPrinciples,
            ReasoningStrategy::RedTeam,
        ]
    }

    /// The strategies that seeding and mutation draw from.
    pub fn standard() -> (r: &'static [ReasoningStrategy])
        ensures
            r@ == standard_strategies(),
            forall|i: int| 0 <= i < r@.len() ==> r@[i] != ReasoningStrategy::RedTeam,
    {
        &[
            ReasoningStrategy::ChainOfThought,
            ReasoningStrategy::Critical,
            ReasoningStrategy::Creative,
            ReasoningStrategy::Logical,
            ReasoningStrategy::EdgeCaseAnalysis,
            ReasoningStrategy::PerformanceFocus,
            ReasoningStrategy::DevilsAdvocate,
            ReasoningStrategy::FirstPrinciples,
        ]
    }

    /// A strategy drawn from the standard ones: never the adversarial one.
    pub fn random(rng: &mut StdRng) -> (r: Self)
        ensures
            standard_strategies().contains(r),
            r != ReasoningStrategy::RedTeam,
    {
        let pool = ReasoningStrategy::standard();
        match pick(rng, pool) {
            Some(s) => *s,
            None => ReasoningStrategy::ChainOfThought,
        }
    }

    /// The instruction block that the strategy puts into a system prompt.
    pub fn instruction(&self) -> (r: &'static str)
        ensures
            r@ == self.instruction_text(),
    {
        match self {
            ReasoningStrategy::ChainOfThought => CHAIN_OF_THOUGHT_INSTRUCTION,
            ReasoningStrategy::Critical => CRITICAL_INSTRUCTION,
            ReasoningStrategy::Creative => CREATIVE_INSTRUCTION,
            ReasoningStrategy::Logical => LOGICAL_INSTRUCTION,
            ReasoningStrategy::EdgeCaseAnalysis => EDGE_CASE_INSTRUCTION,
            ReasoningStrategy::PerformanceFocus => PERFORMANCE_INSTRUCTION,
            ReasoningStrategy::DevilsAdvocate => DEVILS_ADVOCATE_INSTRUCTION,
            ReasoningStrategy::FirstPrinciples => FIRST_PRINCIPLES_INSTRUCTION,
            ReasoningStrategy::RedTeam => RED_TEAM_INSTRUCTION,
        }
    }

    /// The name under which the strategy is shown.
    pub fn label(&self) -> (r: &'static str)
        ensures
            r@ == self.label_text(),
    {
        match self {
            ReasoningStrategy::ChainOfThought => "Chain-of-Thought",
            ReasoningStrategy::Critical => "Critical Analysis",
            ReasoningStrategy::Creative => "Creative / Lateral",
            ReasoningStrategy::Logical => "Strict Logic",
            ReasoningStrategy::EdgeCaseAnalysis => "Edge-Case Analysis",
            ReasoningStrategy::PerformanceFocus => "Performance Focus",
            ReasoningStrategy::DevilsAdvocate => "Devil's Advocate",
            ReasoningStrategy::FirstPrinciples => "First Principles",
            ReasoningStrategy::RedTeam => "Red Team",
        }
    }

    /// The role description that a fresh genotype of the strategy starts
    /// from.
    pub fn role(&self) -> (r: &'static str)
        ensures
            r@ == self.role_text(),
    {
        match self {
            ReasoningStrategy::ChainOfThought => CHAIN_OF_THOUGHT_ROLE,
            ReasoningStrategy::Critical => CRITICAL_ROLE,
            ReasoningStrategy::Creative => CREATIVE_ROLE,
            ReasoningStrategy::Logical => LOGICAL_ROLE,
            ReasoningStrategy::EdgeCaseAnalysis => EDGE_CASE_ROLE,
            ReasoningStrategy::PerformanceFocus => PERFORMANCE_ROLE,
            ReasoningStrategy::DevilsAdvocate => DEVILS_ADVOCATE_ROLE,
            ReasoningStrategy::FirstPrinciples => FIRST_PRINCIPLES_ROLE,
            ReasoningStrategy::RedTeam => RED_TEAM_ROLE,
        }
    }
}

/// The mathematical content of a [`Genotype`].
pub ghost struct GenotypeView {
    pub name: Seq<char>,
    pub base_instruction: Seq<char>,
    pub strategy: ReasoningStrategy,
    pub temperature: u32,
    pub top_p: u32,
    pub judge_feedback: Option<Seq<char>>,
    pub is_red_team: bool,
    pub knowledge_hints: Seq<Seq<char>>,
}

/// The heritable configuration of one agent. Temperature and `top_p` are in
/// millionths.
#[derive(Debug)]
pub struct Genotype {
    pub name: String,
    pub base_instruction: String,
    pub strategy: ReasoningStrategy,
    pub temperature: u32,
    pub top_p: u32,
    pub judge_feedback: Option<String>,
    pub is_red_team: bool,
    pub knowledge_hints: Vec<String>,
}

impl View for Genotype {
    type V = GenotypeView;

    open spec fn view(&self) -> GenotypeView {
        GenotypeView {
            name: self.name@,
            base_instruction: self.base_instruction@,
            strategy: self.strategy,
            temperature: self.temperature,
            top_p: self.top_p,
            judge_feedback: optional_view(self.judge_feedback),
            is_red_team: self.is_red_team,
            knowledge_hints: string_views(self.knowledge_hints@),
        }
    }
}

/// A fresh genotype: the strategy's role as base instruction, `top_p` one,
/// no feedback, no hints, not adversarial.
pub open spec fn fresh_genotype(
    name: Seq<char>,
    strategy: ReasoningStrategy,
    temperature: u32,
) -> GenotypeView {
    GenotypeView {
        name,
        base_instruction: strategy.role_text(),
        strategy,
        temperature,
        top_p: UNIT,
        judge_feedback: None,
        is_red_team: false,
        knowledge_hints: Seq::empty(),
    }
}

/// The genotype of the adversarial agent that closes every team.
pub open spec fn red_team_genotype() -> GenotypeView {
    GenotypeView {
        is_red_team: true,
        ..fresh_genotype(RED_TEAM_NAME@, ReasoningStrategy::RedTeam, 500_000)
    }
}

/// The number of genotype templates.
pub const TEMPLATE_COUNT: usize = 8;

/// The `i`-th genotype template.
pub open spec fn template(i: int) -> GenotypeView {
    if i == 0 {
        fresh_genotype("Chain-of-Thought Analyst"@, ReasoningStrategy::ChainOfThought, 500_000)
    } else if i == 1 {
        fresh_genotype("Critical Analyst"@, ReasoningStrategy::Critical, 300_000)
    } else if i == 2 {
        fresh_genotype("Creative Thinker"@, ReasoningStrategy::Creative, 900_000)
    } else if i == 3 {
        fresh_genotype("Logical Reasoner"@, ReasoningStrategy::Logical, 200_000)
    } else if i == 4 {
        fresh_genotype("Edge-Case Specialist"@, ReasoningStrategy::EdgeCaseAnalysis, 400_000)
    } else if i == 5 {
        fresh_genotype("Performance Optimizer"@, ReasoningStrategy::PerformanceFocus, 300_000)
    } else if i == 6 {
        fresh_genotype("Devil's Advocate"@, ReasoningStrategy::DevilsAdvocate, 700_000)
    } else {
        fresh_genotype("First-Principles Thinker"@, ReasoningStrategy::FirstPrinciples, 400_000)
    }
}

/// Whether `g` is one of the templates.
pub open spec fn is_template(g: GenotypeView) -> bool {
    exists|i: int| 0 <= i < TEMPLATE_COUNT && g == template(i)
}

/// The block that reports the judge's critique of the previous generation;
/// empty when there is no critique or an empty one.
pub open spec fn feedback_block(feedback: Option<Seq<char>>) -> Seq<char> {
    match feedback {
        Some(text) => if text.len() > 0 {
            FEEDBACK_OPENING@ + text + FEEDBACK_CLOSING@
        } else {
            Seq::empty()
        },
        None => Seq::empty(),
    }
}

/// The line of the `i`-th hint: its number from one, a full stop, a space,
/// the hint, a line feed.
pub open spec fn hint_line(hints: Seq<Seq<char>>, i: int) -> Seq<char> {
    decimal_of((i + 1) as nat) + ". "@ + hints[i] + "\n"@
}

/// The lines of the first `upto` hints.
pub open spec fn hint_lines(hints: Seq<Seq<char>>, upto: int) -> Seq<char>
    decreases upto,
{
    if upto <= 0 {
        Seq::empty()
    } else {
        hint_lines(hints, upto - 1) + hint_line(hints, upto - 1)
    }
}

/// The block that lists the knowledge hints; empty when there are none.
pub open spec fn hints_block(hints: Seq<Seq<char>>) -> Seq<char> {
    if hints.len() == 0 {
        Seq::empty()
    } else {
        HINTS_OPENING@ + hint_lines(hints, hints.len() as int) + HINTS_CLOSING@
    }
}

/// The part of a system prompt that stands before the strategy's
/// instruction block.
pub open spec fn prompt_heading(g: GenotypeView) -> Seq<char> {
    PROMPT_PROFILE@ + g.name + PROMPT_STRATEGY@ + g.strategy.label_text() + PROMPT_GAP@
        + g.base_instruction + PROMPT_INSTRUCTIONS@
}

/// The system prompt of a genotype: heading, strategy instructions,
/// feedback, hints, the verification protocol, the closing request.
pub open spec fn system_prompt_of(g: GenotypeView) -> Seq<char> {
    prompt_heading(g) + g.strategy.instruction_text() + feedback_block(g.judge_feedback)
        + hints_block(g.knowledge_hints) + VERIFICATION_PROTOCOL@ + PROMPT_CLOSING@
}

/// Where the `i`-th hint begins in the system prompt of `g`.
pub open spec fn hint_position(g: GenotypeView, i: int) -> int {
    0int + prompt_heading(g).len() + g.strategy.instruction_text().len() + feedback_block(
        g.judge_feedback,
    ).len() + HINTS_OPENING@.len() + hint_lines(g.knowledge_hints, i).len() + decimal_of(
        (i + 1) as nat,
    ).len() + ". "@.len()
}

/// The lines of more hints are at least as long.
pub proof fn lemma_hint_lines_grow(hints: Seq<Seq<char>>, i: int, j: int)
    requires
        0 <= i <= j,
    ensures
        hint_lines(hints, i).len() <= hint_lines(hints, j).len(),
        i < j ==> hint_lines(hints, i).len() + hint_line(hints, i).len() <= hint_lines(
            hints,
            j,
        ).len(),
    decreases j,
{
    if i < j {
        lemma_hint_lines_grow(hints, i, j - 1);
    }
}

/// The line of the `i`-th hint stands in the lines of the first `upto`
/// hints, right after the lines of the hints before it.
pub proof fn lemma_hint_line_occurs(hints: Seq<Seq<char>>, i: int, upto: int)
    requires
        0 <= i < upto,
    ensures
        occurs_at(hint_lines(hints, upto), hint_line(hints, i), hint_lines(hints, i).len() as int),
    decreases upto,
{
    let line = hint_line(hints, i);
    let at = hint_lines(hints, i).len() as int;
    if i == upto - 1 {
        lemma_occurs_between(hint_lines(hints, i), line, Seq::empty());
        assert(hint_lines(hints, i) + line + Seq::<char>::empty() =~= hint_lines(hints, upto));
    } else {
        lemma_hint_line_occurs(hints, i, upto - 1);
        let shorter = hint_lines(hints, upto - 1);
        let longer = hint_lines(hints, upto);
        assert(longer.subrange(at, at + line.len()) =~= shorter.subrange(at, at + line.len()));
    }
}

/// The system prompt of every genotype contains the instruction block of its
/// strategy.
pub proof fn law_prompt_holds_strategy_instruction(g: GenotypeView)
    ensures
        has_subseq(system_prompt_of(g), g.strategy.instruction_text()),
{
    let after = feedback_block(g.judge_feedback) + hints_block(g.knowledge_hints)
        + VERIFICATION_PROTOCOL@ + PROMPT_CLOSING@;
    lemma_occurs_between(prompt_heading(g), g.strategy.instruction_text(), after);
    assert(prompt_heading(g) + g.strategy.instruction_text() + after =~= system_prompt_of(g));
}

/// The system prompt of a genotype with hints lists every hint, each in a
/// numbered line of its own and in the order of the hints: the `i`-th hint
/// stands at `hint_position(g, i)`, and ends before the next one begins.
pub proof fn law_prompt_lists_hints_in_order(g: GenotypeView, i: int, j: int)
    requires
        0 <= i <= j < g.knowledge_hints.len(),
    ensures
        occurs_at(system_prompt_of(g), g.knowledge_hints[i], hint_position(g, i)),
        has_subseq(system_prompt_of(g), g.knowledge_hints[i]),
        i < j ==> hint_position(g, i) + g.knowledge_hints[i].len() < hint_position(g, j),
{
    let hints = g.knowledge_hints;
    let n = hints.len() as int;
    let before = prompt_heading(g) + g.strategy.instruction_text() + feedback_block(
        g.judge_feedback,
    ) + HINTS_OPENING@;
    let after = HINTS_CLOSING@ + VERIFICATION_PROTOCOL@ + PROMPT_CLOSING@;
    let lines = hint_lines(hints, n);
    let whole = system_prompt_of(g);
    assert(whole =~= before + lines + after);
    lemma_occurs_between(before, lines, after);
    lemma_hint_line_occurs(hints, i, n);
    lemma_occurs_within(
        whole,
        lines,
        hint_line(hints, i),
        before.len() as int,
        hint_lines(hints, i).len() as int,
    );
    let number = decimal_of((i + 1) as nat) + ". "@;
    lemma_occurs_between(number, hints[i], "\n"@);
    assert(number + hints[i] + "\n"@ =~= hint_line(hints, i));
    lemma_occurs_within(
        whole,
        hint_line(hints, i),
        hints[i],
        (before.len() + hint_lines(hints, i).len()) as int,
        number.len() as int,
    );
    if i < j {
        lemma_hint_lines_grow(hints, i, j);
    }
}

/// A hint occurs in the system prompt exactly once, at its numbered line,
/// where it holds a character that the prompt holds nowhere else: then no
/// other part of the prompt, and no other hint, can repeat it.
pub proof fn law_marked_hint_occurs_once(g: GenotypeView, i: int, c: char, p: int)
    requires
        0 <= i < g.knowledge_hints.len(),
        g.knowledge_hints[i].contains(c),
        forall|q: int|
            0 <= q < system_prompt_of(g).len() && #[trigger] system_prompt_of(g)[q] == c
                ==> hint_position(g, i) <= q < hint_position(g, i) + g.knowledge_hints[i].len(),
        occurs_at(system_prompt_of(g), g.knowledge_hints[i], p),
    ensures
        p == hint_position(g, i),
{
    law_prompt_lists_hints_in_order(g, i, i);
    lemma_marked_text_occurs_once(
        system_prompt_of(g),
        g.knowledge_hints[i],
        hint_position(g, i),
        c,
        p,
    );
}

/// The system prompt of a genotype without hints has no hint block: it is
/// the heading, the strategy's instructions, the feedback block, the
/// verification protocol and the closing request, and nothing else.
pub proof fn law_prompt_without_hints(g: GenotypeView)
    requires
        g.knowledge_hints.len() == 0,
    ensures
        system_prompt_of(g) == prompt_heading(g) + g.strategy.instruction_text() + feedback_block(
            g.judge_feedback,
        ) + VERIFICATION_PROTOCOL@ + PROMPT_CLOSING@,
{
    assert(system_prompt_of(g) =~= prompt_heading(g) + g.strategy.instruction_text()
        + feedback_block(g.judge_feedback) + VERIFICATION_PROTOCOL@ + PROMPT_CLOSING@);
}

impl Clone for Genotype {
    fn clone(&self) -> (r: Self)
        ensures
            r@ == self@,
    {
        Genotype {
            name: self.name.clone(),
            base_instruction: self.base_instruction.clone(),
            strategy: self.strategy,
            temperature: self.temperature,
            top_p: self.top_p,
            judge_feedback: clone_optional(&self.judge_feedback),
            is_red_team: self.is_red_team,
            knowledge_hints: clone_strings(&self.knowledge_hints),
        }
    }
}

impl Genotype {
    /// A fresh genotype of the given strategy.
    pub fn new(name: &str, strategy: ReasoningStrategy, temperature: u32) -> (g: Self)
        ensures
            g@ == fresh_genotype(name@, strategy, temperature),
    {
        let g = Genotype {
            name: string_of(&chars_of(name)),
            base_instruction: string_of(&chars_of(strategy.role())),
            strategy,
            temperature,
            top_p: UNIT,
            judge_feedback: None,
            is_red_team: false,
            knowledge_hints: Vec::new(),
        };
        proof {
            assert(string_views(g.knowledge_hints@) =~= Seq::<Seq<char>>::empty());
        }
        g
    }

    /// The genotype of the adversarial agent that closes every team.
    pub fn red_team() -> (g: Self)
        ensures
            g@ == red_team_genotype(),
    {
        let mut g = Genotype::new(RED_TEAM_NAME, ReasoningStrategy::RedTeam, 500_000);
        g.is_red_team = true;
        g
    }

    /// The eight templates that populations are seeded from.
    pub fn templates() -> (r: Vec<Genotype>)
        ensures
            r@.len() == TEMPLATE_COUNT,
            forall|i: int| 0 <= i < TEMPLATE_COUNT ==> (#[trigger] r@[i])@ == template(i),
    {
        let mut r: Vec<Genotype> = Vec::new();
        r.push(
            Genotype::new("Chain-of-Thought Analyst", ReasoningStrategy::ChainOfThought, 500_000),
        );
        r.push(Genotype::new("Critical Analyst", ReasoningStrategy::Critical, 300_000));
        r.push(Genotype::new("Creative Thinker", ReasoningStrategy::Creative, 900_000));
        r.push(Genotype::new("Logical Reasoner", ReasoningStrategy::Logical, 200_000));
        r.push(Genotype::new("Edge-Case Specialist", ReasoningStrategy::EdgeCaseAnalysis, 400_000));
        r.push(
            Genotype::new("Performance Optimizer", ReasoningStrategy::PerformanceFocus, 300_000),
        );
        r.push(Genotype::new("Devil's Advocate", ReasoningStrategy::DevilsAdvocate, 700_000));
        r.push(
            Genotype::new("First-Principles Thinker", ReasoningStrategy::FirstPrinciples, 400_000),
        );
        r
    }

    /// One of the templates, drawn at random.
    pub fn random(rng: &mut StdRng) -> (g: Self)
        ensures
            is_template(g@),
    {
        let pool = Genotype::templates();
        let ghost views = pool@;
        match pick_owned(rng, pool) {
            Some(g) => {
                proof {
                    let i = choose|i: int| 0 <= i < views.len() && views[i] == g;
                    assert(views[i]@ == template(i));
                }
                g
            },
            None => Genotype::new(
                "Chain-of-Thought Analyst",
                ReasoningStrategy::ChainOfThought,
                500_000,
            ),
        }
    }

    /// The system prompt that an agent of this genotype runs under.
    pub fn build_system_prompt(&self) -> (prompt: String)
        ensures
            prompt@ == system_prompt_of(self@),
    {
        let mut p: Vec<char> = Vec::new();
        push_str_chars(&mut p, PROMPT_PROFILE);
        push_str_chars(&mut p, self.name.as_str());
        push_str_chars(&mut p, PROMPT_STRATEGY);
        push_str_chars(&mut p, self.strategy.label());
        push_str_chars(&mut p, PROMPT_GAP);
        push_str_chars(&mut p, self.base_instruction.as_str());
        push_str_chars(&mut p, PROMPT_INSTRUCTIONS);
        proof {
            assert(p@ == prompt_heading(self@));
        }
        push_str_chars(&mut p, self.strategy.instruction());
        let ghost before_feedback = p@;
        match &self.judge_feedback {
            Some(feedback) => {
                if !feedback.as_str().is_empty() {
                    push_str_chars(&mut p, FEEDBACK_OPENING);
                    push_str_chars(&mut p, feedback.as_str());
                    push_str_chars(&mut p, FEEDBACK_CLOSING);
                }
            },
            None => {},
        }
        proof {
            assert(p@ == before_feedback + feedback_block(self@.judge_feedback));
        }
        let ghost before_hints = p@;
        let ghost hints = self@.knowledge_hints;
        if self.knowledge_hints.len() > 0 {
            push_str_chars(&mut p, HINTS_OPENING);
            let mut i: usize = 0;
            while i < self.knowledge_hints.len()
                invariant
                    i <= self.knowledge_hints.len(),
                    hints == string_views(self.knowledge_hints@),
                    p@ == before_hints + HINTS_OPENING@ + hint_lines(hints, i as int),
                decreases self.knowledge_hints.len() - i,
            {
                let number = decimal_chars((i + 1) as u64);
                push_chars(&mut p, &number);
                push_str_chars(&mut p, ". ");
                push_str_chars(&mut p, self.knowledge_hints[i].as_str());
                push_str_chars(&mut p, "\n");
                proof {
                    assert(hints[i as int] == self.knowledge_hints[i as int]@);
                    assert(p@ == before_hints + HINTS_OPENING@ + (hint_lines(hints, i as int)
                        + hint_line(hints, i as int)));
                }
                i += 1;
            }
            push_str_chars(&mut p, HINTS_CLOSING);
        }
        proof {
            assert(p@ == before_hints + hints_block(hints));
        }
        push_str_chars(&mut p, VERIFICATION_PROTOCOL);
        push_str_chars(&mut p, PROMPT_CLOSING);
        string_of(&p)
    }
}

} // verus!
