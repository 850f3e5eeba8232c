//! The knowledge base: a bounded, deduplicated store of warnings carried
//! from one generation to the next.

use vstd::prelude::*;
use crate::agent::AgentOutputView;
use crate::llm::ChatRequest;
use crate::orchestrator::is_red;
use crate::similarity::{is_below_quarter, overlap_of, WordSet};
use crate::team::{TeamOutput, TeamOutputView};
use crate::text::{
    enclosed, enclosed_chars, head_chars, head_of, push_str_chars, split_words, tail_chars, tail_of,
    words_of, byte_len, chars_of, contains_chars, has_prefix, has_subseq, lowercase, lowercase_of, push_chars,
    same_chars, sentences_of, split_sentences, starts_with_chars, string_of, string_views, trim,
    trim_of, utf8_len, views_of,
};

verus! {

/// The key under which an insight is deduplicated: lower-cased and trimmed.
pub open spec fn key_of(insight: Seq<char>) -> Seq<char> {
    trim_of(lowercase_of(insight))
}

/// The newest `capacity` entries of `all`.
pub open spec fn newest(all: Seq<Seq<char>>, capacity: nat) -> Seq<Seq<char>> {
    if all.len() <= capacity {
        all
    } else {
        all.skip(all.len() - capacity)
    }
}

/// The mathematical content of a [`KnowledgeBase`].
pub ghost struct KnowledgeView {
    /// The stored insights, oldest first.
    pub insights: Seq<Seq<char>>,
    /// The largest number of insights that may be stored.
    pub capacity: nat,
}

impl KnowledgeView {
    /// Whether an insight with this key is stored.
    pub open spec fn knows(self, key: Seq<char>) -> bool {
        exists|i: int| 0 <= i < self.insights.len() && key_of(#[trigger] self.insights[i]) == key
    }

    /// The invariant of a knowledge base: it is within its capacity, no key
    /// is empty and no key occurs twice.
    pub open spec fn valid(self) -> bool {
        &&& self.insights.len() <= self.capacity
        &&& forall|i: int|
            0 <= i < self.insights.len() ==> key_of(#[trigger] self.insights[i]).len() > 0
        &&& forall|i: int, j: int|
            0 <= i < j < self.insights.len() ==> key_of(#[trigger] self.insights[i]) != key_of(
                #[trigger] self.insights[j],
            )
    }

    /// The knowledge base after `insight` was offered to it: unchanged if its
    /// key is empty or already known, else with the insight appended and the
    /// oldest entries dropped until the capacity holds.
    pub open spec fn added(self, insight: Seq<char>) -> KnowledgeView {
        let key = key_of(insight);
        if key.len() == 0 || self.knows(key) {
            self
        } else {
            KnowledgeView {
                insights: newest(self.insights.push(insight), self.capacity),
                capacity: self.capacity,
            }
        }
    }

    /// The knowledge base after each of `insights` was offered in turn.
    pub open spec fn added_all(self, insights: Seq<Seq<char>>) -> KnowledgeView
        decreases insights.len(),
    {
        if insights.len() == 0 {
            self
        } else {
            self.added(insights[0]).added_all(insights.drop_first())
        }
    }
}

/// Whether a lower-cased sentence names a problem.
pub open spec fn describes_problem(lower: Seq<char>) -> bool {
    ||| has_subseq(lower, "flaw"@)
    ||| has_subseq(lower, "incorrect"@)
    ||| has_subseq(lower, "wrong"@)
    ||| has_subseq(lower, "miss"@)
    ||| has_subseq(lower, "overlook"@)
    ||| has_subseq(lower, "contradict"@)
    ||| has_subseq(lower, "gap"@)
    ||| has_subseq(lower, "error"@)
    ||| has_subseq(lower, "failed to"@)
    ||| has_subseq(lower, "should have"@)
    ||| has_subseq(lower, "did not consider"@)
    ||| has_subseq(lower, "not account"@)
    ||| has_subseq(lower, "alternative"@)
}

/// Whether a lower-cased sentence opens with praise.
pub open spec fn opens_with_praise(lower: Seq<char>) -> bool {
    ||| has_prefix(lower, "good"@)
    ||| has_prefix(lower, "correct"@)
    ||| has_prefix(lower, "well done"@)
    ||| has_prefix(lower, "the agents correctly"@)
    ||| has_prefix(lower, "strong"@)
}

/// Whether a trimmed sentence of a critique is kept as a warning: it is
/// from 30 to 200 bytes long, names a problem, and does not open with
/// praise.
pub open spec fn is_warning(sentence: Seq<char>) -> bool {
    &&& 30 <= byte_len(sentence) <= 200
    &&& describes_problem(lowercase_of(sentence))
    &&& !opens_with_praise(lowercase_of(sentence))
}

/// The insight stored for a warning sentence.
pub open spec fn warning_of(sentence: Seq<char>) -> Seq<char> {
    "UNRESOLVED: "@ + sentence
}

/// The knowledge base after the pieces of a critique were examined in turn.
pub open spec fn after_sentences(kb: KnowledgeView, pieces: Seq<Seq<char>>) -> KnowledgeView
    decreases pieces.len(),
{
    if pieces.len() == 0 {
        kb
    } else {
        let sentence = trim_of(pieces[0]);
        let next = if is_warning(sentence) {
            kb.added(warning_of(sentence))
        } else {
            kb
        };
        after_sentences(next, pieces.drop_first())
    }
}

/// The knowledge base after a judge's critique was mined for warnings. A
/// critique shorter than 20 bytes is ignored.
pub open spec fn after_critique(kb: KnowledgeView, critique: Seq<char>) -> KnowledgeView {
    if byte_len(critique) < 20 {
        kb
    } else {
        after_sentences(kb, sentences_of(critique))
    }
}

/// The number of characters at the end of an answer that count as its
/// conclusion when conflicts are looked for.
pub const CONCLUSION_WINDOW: usize = 300;

/// The number of characters of an answer that are shown when insights are
/// asked for.
pub const EXCERPT_WINDOW: usize = 600;

/// What stands before the first team's name in a conflict insight.
pub const CONFLICT_OPENING: &'static str = "CONFLICT: Team \"";

/// What stands between the two teams' names in a conflict insight.
pub const CONFLICT_BETWEEN: &'static str = "\" and Team \"";

/// What stands after the second team's name in a conflict insight.
pub const CONFLICT_CLOSING: &'static str =
    "\" reached very different \
                         conclusions. Investigate which is correct and why.";

/// The system prompt of the call that draws insights from answers.
pub const INSIGHT_SYSTEM: &'static str =
    "You are a knowledge curator. Extract the most valuable non-obvious \
                 insights from AI agent outputs. Output only valid JSON.";

/// What stands before the problem in the insight message.
pub const INSIGHT_OPENING: &'static str =
    "Analyse these AI agent responses to the problem below. \
             Extract 1-3 KEY INSIGHTS that are novel, non-obvious, or represent \
             important logical breakthroughs. Focus on:\n\
             - Unique logical deductions other agents missed\n\
             - Important edge cases or constraints identified\n\
             - Methodological approaches that seem promising\n\
             - Counter-examples or contradictions discovered\n\n\
             **Problem:** ";

/// What stands between the problem and the answers in the insight message.
pub const INSIGHT_OUTPUTS: &'static str = "\n\n\
             **Agent Outputs:**\n";

/// The request for a JSON array that closes the insight message.
pub const INSIGHT_FORMAT: &'static str =
    "\n\n\
             Respond with ONLY a JSON array of short insight strings, e.g.:\n\
             [\"Insight 1\", \"Insight 2\"]";

/// The number of red-team outputs that `outputs` begins with.
pub open spec fn leading_red(outputs: Seq<AgentOutputView>) -> nat
    decreases outputs.len(),
{
    if outputs.len() > 0 && is_red(outputs[0]) {
        1 + leading_red(outputs.drop_first())
    } else {
        0
    }
}

/// The conclusion of a team: the last 300 characters of the answer of its
/// first agent that is not a red-team agent, lower-cased. A team without
/// such an answer has none.
pub open spec fn conclusion_of(output: TeamOutputView) -> Option<Seq<char>> {
    let k = leading_red(output.agent_outputs) as int;
    if k < output.agent_outputs.len() {
        Some(lowercase_of(tail_of(output.agent_outputs[k].content, CONCLUSION_WINDOW as nat)))
    } else {
        None
    }
}

/// The names and conclusions of the first `upto` teams that have a
/// conclusion, in order.
pub open spec fn conclusions_of(teams: Seq<(Seq<char>, TeamOutputView)>, upto: int) -> Seq<
    (Seq<char>, Seq<char>),
>
    decreases upto,
{
    if upto <= 0 {
        Seq::empty()
    } else {
        let before = conclusions_of(teams, upto - 1);
        match conclusion_of(teams[upto - 1].1) {
            Some(text) => before.push((teams[upto - 1].0, text)),
            None => before,
        }
    }
}

/// Whether two conclusions are in conflict: the Jaccard similarity of their
/// sets of words is below a quarter.
pub open spec fn in_conflict(a: Seq<char>, b: Seq<char>) -> bool {
    overlap_of(words_of(a).to_set(), words_of(b).to_set()).below_quarter()
}

/// The insight stored for a conflict between two teams.
pub open spec fn conflict_of(first: Seq<char>, second: Seq<char>) -> Seq<char> {
    CONFLICT_OPENING@ + first + CONFLICT_BETWEEN@ + second + CONFLICT_CLOSING@
}

/// The knowledge base after conclusion `i` was held against the
/// conclusions after it, up to `upto`.
pub open spec fn after_pairs(
    kb: KnowledgeView,
    conclusions: Seq<(Seq<char>, Seq<char>)>,
    i: int,
    upto: int,
) -> KnowledgeView
    decreases upto - i,
{
    if upto <= i + 1 {
        kb
    } else {
        let before = after_pairs(kb, conclusions, i, upto - 1);
        if in_conflict(conclusions[i].1, conclusions[upto - 1].1) {
            before.added(conflict_of(conclusions[i].0, conclusions[upto - 1].0))
        } else {
            before
        }
    }
}

/// The knowledge base after each of the first `upto` conclusions was held
/// against the conclusions after it.
pub open spec fn after_rows(
    kb: KnowledgeView,
    conclusions: Seq<(Seq<char>, Seq<char>)>,
    upto: int,
) -> KnowledgeView
    decreases upto,
{
    if upto <= 0 {
        kb
    } else {
        after_pairs(
            after_rows(kb, conclusions, upto - 1),
            conclusions,
            upto - 1,
            conclusions.len() as int,
        )
    }
}

/// The knowledge base after the outputs of a generation's teams were
/// searched for conflicts. Fewer than two teams have none.
pub open spec fn after_conflicts(kb: KnowledgeView, teams: Seq<(Seq<char>, TeamOutputView)>)
    -> KnowledgeView {
    if teams.len() < 2 {
        kb
    } else {
        let conclusions = conclusions_of(teams, teams.len() as int);
        after_rows(kb, conclusions, conclusions.len() as int)
    }
}

/// The views of named team outputs.
pub open spec fn named_output_views(teams: Seq<(String, &TeamOutput)>) -> Seq<
    (Seq<char>, TeamOutputView),
> {
    Seq::new(teams.len(), |i: int| (teams[i].0@, teams[i].1@))
}

/// What `serde_json` makes of `text`, read as a JSON array of strings: the
/// strings in order, or nothing if the text is not such an array.
pub uninterp spec fn json_strings_of(text: Seq<char>) -> Option<Seq<Seq<char>>>;

/// Parses `text` with `serde_json::from_str` as a vector of strings.
#[verifier::external_body]
pub(crate) fn parse_json_strings(text: &str) -> (r: Option<Vec<String>>)
    ensures
        match r {
            Some(items) => json_strings_of(text@) == Some(string_views(items@)),
            None => json_strings_of(text@) is None,
        },
{
    serde_json::from_str::<Vec<String>>(text).ok()
}

/// The insights that a model's reply lists: those of the reply read as a
/// JSON array of strings, else those of the part between the first opening
/// and the last closing bracket of the trimmed reply, else none.
pub open spec fn listed_insights(response: Seq<char>) -> Seq<Seq<char>> {
    match json_strings_of(response) {
        Some(items) => items,
        None => match enclosed(trim_of(response), '[', ']') {
            Some(inner) => match json_strings_of(inner) {
                Some(items) => items,
                None => Seq::empty(),
            },
            None => Seq::empty(),
        },
    }
}

/// The block in which one answer is shown when insights are asked for: the
/// agent's name and the first 600 characters of the answer.
pub open spec fn excerpt_block(name: Seq<char>, content: Seq<char>) -> Seq<char> {
    "--- "@ + name + " ---\n"@ + head_of(content, EXCERPT_WINDOW as nat) + "\n\n"@
}

/// The blocks of the first `upto` answers.
pub open spec fn excerpt_blocks(outputs: Seq<(String, String)>, upto: int) -> Seq<char>
    decreases upto,
{
    if upto <= 0 {
        Seq::empty()
    } else {
        excerpt_blocks(outputs, upto - 1) + excerpt_block(outputs[upto - 1].0@, outputs[upto - 1].1@)
    }
}

/// What the model is asked when insights are to be drawn from answers.
pub open spec fn insight_message_of(problem: Seq<char>, outputs: Seq<(String, String)>) -> Seq<
    char,
> {
    INSIGHT_OPENING@ + problem + INSIGHT_OUTPUTS@ + excerpt_blocks(outputs, outputs.len() as int)
        + INSIGHT_FORMAT@
}

/// Offering an insight to a valid knowledge base leaves it valid.
pub proof fn lemma_added_valid(kb: KnowledgeView, insight: Seq<char>)
    requires
        kb.valid(),
    ensures
        kb.added(insight).valid(),
        kb.added(insight).capacity == kb.capacity,
{
    let key = key_of(insight);
    if !(key.len() == 0 || kb.knows(key)) {
        let all = kb.insights.push(insight);
        let kept = newest(all, kb.capacity);
        let d = all.len() - kept.len();
        assert forall|i: int| 0 <= i < kept.len() implies key_of(#[trigger] kept[i]).len()
            > 0 by {
            assert(kept[i] == all[i + d]);
            if i + d < kb.insights.len() {
                assert(all[i + d] == kb.insights[i + d]);
            }
        }
        assert forall|i: int, j: int| 0 <= i < j < kept.len() implies key_of(#[trigger] kept[i])
            != key_of(#[trigger] kept[j]) by {
            assert(kept[i] == all[i + d]);
            assert(kept[j] == all[j + d]);
            assert(all[i + d] == kb.insights[i + d]);
            if j + d < kb.insights.len() {
                assert(all[j + d] == kb.insights[j + d]);
            }
        }
    }
}

/// Keeping the newest entries twice is keeping them once: what was dropped
/// before more entries came would be dropped anyway.
pub proof fn lemma_newest_of_newest(a: Seq<Seq<char>>, b: Seq<Seq<char>>, capacity: nat)
    ensures
        newest(newest(a, capacity) + b, capacity) == newest(a + b, capacity),
{
    assert(newest(newest(a, capacity) + b, capacity) =~= newest(a + b, capacity));
}

/// An insight is ignored once an insight with the same key was offered:
/// offering "Foo." and then "foo." is the same as offering "Foo." alone.
pub proof fn law_add_ignores_duplicates(kb: KnowledgeView, first: Seq<char>, second: Seq<char>)
    requires
        kb.valid(),
        key_of(first) == key_of(second),
    ensures
        kb.added(first).added(second) == kb.added(first),
{
    let key = key_of(first);
    let once = kb.added(first);
    if key.len() > 0 && !kb.knows(key) {
        let all = kb.insights.push(first);
        if kb.capacity > 0 {
            let kept = newest(all, kb.capacity);
            assert(kept[kept.len() - 1] == first);
            assert(once.insights == kept);
            assert(key_of(once.insights[once.insights.len() - 1]) == key);
            assert(once.knows(key));
        } else {
            assert(once.insights.len() == 0);
            assert(!once.knows(key));
            assert(newest(once.insights.push(second), 0) =~= once.insights);
        }
    }
}

/// A knowledge base never exceeds its capacity, and what it holds after
/// new insights were offered are the newest entries in the order in which
/// they came: after `capacity + k` insights with keys of their own, the
/// oldest `k` are gone.
pub proof fn law_capacity_keeps_newest(kb: KnowledgeView, items: Seq<Seq<char>>)
    requires
        kb.valid(),
        forall|i: int| 0 <= i < items.len() ==> key_of(#[trigger] items[i]).len() > 0,
        forall|i: int, j: int|
            0 <= i < j < items.len() ==> key_of(#[trigger] items[i]) != key_of(
                #[trigger] items[j],
            ),
        forall|i: int| 0 <= i < items.len() ==> !kb.knows(key_of(#[trigger] items[i])),
    ensures
        kb.added_all(items).insights == newest(kb.insights + items, kb.capacity),
        kb.added_all(items).insights.len() <= kb.capacity,
        kb.added_all(items).capacity == kb.capacity,
    decreases items.len(),
{
    if items.len() == 0 {
        assert(kb.insights + items =~= kb.insights);
    } else {
        let x = items[0];
        let rest = items.drop_first();
        let next = kb.added(x);
        let all = kb.insights.push(x);
        lemma_added_valid(kb, x);
        assert(next.insights == newest(all, kb.capacity));
        assert forall|i: int| 0 <= i < rest.len() implies !next.knows(
            key_of(#[trigger] rest[i]),
        ) by {
            assert(rest[i] == items[i + 1]);
            if next.knows(key_of(rest[i])) {
                let k = choose|k: int|
                    0 <= k < next.insights.len() && key_of(#[trigger] next.insights[k]) == key_of(
                        rest[i],
                    );
                let d = all.len() - next.insights.len();
                assert(next.insights[k] == all[k + d]);
                if k + d < kb.insights.len() {
                    assert(all[k + d] == kb.insights[k + d]);
                    assert(kb.knows(key_of(items[i + 1])));
                } else {
                    assert(all[k + d] == items[0]);
                }
            }
        }
        assert forall|i: int| 0 <= i < rest.len() implies key_of(#[trigger] rest[i]).len()
            > 0 by {
            assert(rest[i] == items[i + 1]);
        }
        assert forall|i: int, j: int| 0 <= i < j < rest.len() implies key_of(#[trigger] rest[i])
            != key_of(#[trigger] rest[j]) by {
            assert(rest[i] == items[i + 1]);
            assert(rest[j] == items[j + 1]);
        }
        law_capacity_keeps_newest(next, rest);
        lemma_newest_of_newest(all, rest, kb.capacity);
        assert(all + rest =~= kb.insights + items);
    }
}

/// A bounded store of insights, oldest first, in which no two entries agree
/// up to case and surrounding whitespace.
#[derive(Debug)]
pub struct KnowledgeBase {
    insights: Vec<String>,
    keys: Vec<Vec<char>>,
    max_insights: usize,
}

impl View for KnowledgeBase {
    type V = KnowledgeView;

    closed spec fn view(&self) -> KnowledgeView {
        KnowledgeView {
            insights: string_views(self.insights@),
            capacity: self.max_insights as nat,
        }
    }
}

/// Whether `needle` stands somewhere in `hay`.
fn mentions(hay: &Vec<char>, needle: &str) -> (r: bool)
    ensures
        r == has_subseq(hay@, needle@),
{
    let n = chars_of(needle);
    contains_chars(hay, &n)
}

/// Whether `hay` begins with `needle`.
fn opens_with(hay: &Vec<char>, needle: &str) -> (r: bool)
    ensures
        r == has_prefix(hay@, needle@),
{
    let n = chars_of(needle);
    starts_with_chars(hay, &n)
}

/// Whether a trimmed sentence of a critique is kept as a warning.
pub fn sentence_is_warning(sentence: &Vec<char>) -> (r: bool)
    ensures
        r == is_warning(sentence@),
{
    let n = utf8_len(sentence);
    if !(n >= 30 && n <= 200) {
        return false;
    }
    let lower = lowercase(sentence);
    let problem = mentions(&lower, "flaw") || mentions(&lower, "incorrect") || mentions(
        &lower,
        "wrong",
    ) || mentions(&lower, "miss") || mentions(&lower, "overlook") || mentions(
        &lower,
        "contradict",
    ) || mentions(&lower, "gap") || mentions(&lower, "error") || mentions(&lower, "failed to")
        || mentions(&lower, "should have") || mentions(&lower, "did not consider") || mentions(
        &lower,
        "not account",
    ) || mentions(&lower, "alternative");
    let praise = opens_with(&lower, "good") || opens_with(&lower, "correct") || opens_with(
        &lower,
        "well done",
    ) || opens_with(&lower, "the agents correctly") || opens_with(&lower, "strong");
    problem && !praise
}

/// Whether `names` and `words` hold the names and the word sets of the
/// conclusions `found`.
pub open spec fn conclusions_held(
    names: Seq<Vec<char>>,
    words: Seq<WordSet>,
    found: Seq<(Seq<char>, Seq<char>)>,
) -> bool {
    &&& names.len() == found.len()
    &&& words.len() == found.len()
    &&& forall|k: int| 0 <= k < found.len() ==> (#[trigger] names[k])@ == found[k].0
    &&& forall|k: int|
        0 <= k < found.len() ==> (#[trigger] words[k]).wf() && words[k]@ == words_of(
            found[k].1,
        ).to_set()
}

/// A well-formed knowledge base holds valid content.
pub proof fn lemma_wf_valid(kb: &KnowledgeBase)
    requires
        kb.wf(),
    ensures
        kb@.valid(),
{
}

/// The answer of the first agent of a team that is not a red-team agent.
pub fn first_standard_content(output: &TeamOutput) -> (r: Option<&str>)
    ensures
        match r {
            Some(content) => {
                &&& leading_red(output@.agent_outputs) < output@.agent_outputs.len()
                &&& content@ == output@.agent_outputs[leading_red(
                    output@.agent_outputs,
                ) as int].content
            },
            None => leading_red(output@.agent_outputs) >= output@.agent_outputs.len(),
        },
{
    let ghost views = output@.agent_outputs;
    let mut k: usize = 0;
    proof {
        assert(views.skip(0) == views);
    }
    while k < output.agent_outputs.len()
        invariant
            k <= output.agent_outputs.len(),
            views == output@.agent_outputs,
            leading_red(views) == k + leading_red(views.skip(k as int)),
        decreases output.agent_outputs.len() - k,
    {
        let o = &output.agent_outputs[k];
        proof {
            let rest = views.skip(k as int);
            assert(rest[0] == o@);
            assert(rest.drop_first() == views.skip(k + 1));
        }
        if o.strategy != crate::genotype::ReasoningStrategy::RedTeam {
            return Some(o.content.as_str());
        }
        k += 1;
    }
    None
}

/// The request by which insights are drawn from the answers of agents,
/// each given with the agent's name. Without answers nothing is asked.
pub fn insight_request(agent_outputs: &[(String, String)], problem: &str, max_tokens: u32) -> (r:
    Option<ChatRequest>)
    ensures
        match r {
            Some(request) => {
                &&& agent_outputs@.len() > 0
                &&& request.system_prompt@ == INSIGHT_SYSTEM@
                &&& request.user_message@ == insight_message_of(problem@, agent_outputs@)
                &&& request.temperature == 200_000
                &&& request.top_p == 1_000_000
                &&& request.max_tokens == (if max_tokens < 512 {
                    max_tokens
                } else {
                    512
                })
            },
            None => agent_outputs@.len() == 0,
        },
{
    if agent_outputs.len() == 0 {
        return None;
    }
    let mut message = chars_of(INSIGHT_OPENING);
    push_str_chars(&mut message, problem);
    push_str_chars(&mut message, INSIGHT_OUTPUTS);
    let ghost before = message@;
    let mut i: usize = 0;
    while i < agent_outputs.len()
        invariant
            i <= agent_outputs.len(),
            message@ == before + excerpt_blocks(agent_outputs@, i as int),
        decreases agent_outputs.len() - i,
    {
        let ghost now = message@;
        push_str_chars(&mut message, "--- ");
        push_str_chars(&mut message, agent_outputs[i].0.as_str());
        push_str_chars(&mut message, " ---\n");
        let excerpt = head_chars(&chars_of(agent_outputs[i].1.as_str()), EXCERPT_WINDOW);
        push_chars(&mut message, &excerpt);
        push_str_chars(&mut message, "\n\n");
        proof {
            assert(message@ == now + excerpt_block(
                agent_outputs@[i as int].0@,
                agent_outputs@[i as int].1@,
            ));
        }
        i += 1;
    }
    push_str_chars(&mut message, INSIGHT_FORMAT);
    Some(
        ChatRequest {
            system_prompt: string_of(&chars_of(INSIGHT_SYSTEM)),
            user_message: string_of(&message),
            temperature: 200_000,
            top_p: 1_000_000,
            max_tokens: if max_tokens < 512 {
                max_tokens
            } else {
                512
            },
        },
    )
}

impl KnowledgeBase {
    /// The representation invariant: every stored insight has its key beside
    /// it, and the content is valid.
    pub closed spec fn wf(&self) -> bool {
        &&& self.keys.len() == self.insights.len()
        &&& forall|i: int|
            0 <= i < self.insights.len() ==> (#[trigger] self.keys[i])@ == key_of(
                self.insights[i]@,
            )
        &&& self@.valid()
    }

    /// An empty knowledge base that holds at most `max_insights` insights.
    pub fn new(max_insights: usize) -> (kb: Self)
        ensures
            kb.wf(),
            kb@.valid(),
            kb@.insights.len() == 0,
            kb@.capacity == max_insights,
    {
        KnowledgeBase { insights: Vec::new(), keys: Vec::new(), max_insights }
    }

    /// Whether an insight with this key is stored.
    fn has_key(&self, key: &Vec<char>) -> (r: bool)
        requires
            self.wf(),
        ensures
            r == self@.knows(key@),
    {
        let mut i: usize = 0;
        while i < self.keys.len()
            invariant
                i <= self.keys.len(),
                self.wf(),
                forall|k: int| 0 <= k < i ==> key_of(#[trigger] self@.insights[k]) != key@,
            decreases self.keys.len() - i,
        {
            if same_chars(&self.keys[i], key) {
                proof {
                    assert(key_of(self@.insights[i as int]) == key@);
                }
                return true;
            }
            i += 1;
        }
        false
    }

    /// Offers an insight: it is stored unless its key is empty or already
    /// known, and the oldest insights leave while the capacity is exceeded.
    pub fn add(&mut self, insight: String)
        requires
            old(self).wf(),
        ensures
            final(self).wf(),
            final(self)@.valid(),
            final(self)@ == old(self)@.added(insight@),
    {
        let chars = chars_of(insight.as_str());
        let lower = lowercase(&chars);
        let key = trim(&lower);
        if key.len() == 0 || self.has_key(&key) {
            return ;
        }
        proof {
            lemma_added_valid(self@, insight@);
        }
        let ghost all = self@.insights.push(insight@);
        let ghost keys_before = self.keys@;
        let ghost insights_before = self.insights@;
        self.keys.push(key);
        self.insights.push(insight);
        proof {
            assert(string_views(self.insights@) == all);
        }
        while self.insights.len() > self.max_insights
            invariant
                self.keys.len() == self.insights.len(),
                self.insights.len() <= all.len(),
                self.insights.len() == all.len() || self.insights.len() >= self.max_insights,
                self.max_insights == old(self).max_insights,
                forall|i: int|
                    0 <= i < self.insights.len() ==> (#[trigger] self.keys[i])@ == key_of(
                        self.insights[i]@,
                    ),
                string_views(self.insights@) == all.skip(all.len() - self.insights.len()),
            decreases self.insights.len(),
        {
            let ghost before = self.insights@;
            let ghost keys = self.keys@;
            self.insights.remove(0);
            self.keys.remove(0);
            proof {
                assert forall|i: int| 0 <= i < self.insights.len() implies (
                #[trigger] self.keys[i])@ == key_of(self.insights[i]@) by {
                    assert(self.keys[i] == keys[i + 1]);
                    assert(self.insights[i] == before[i + 1]);
                }
                assert(string_views(self.insights@) =~= all.skip(
                    all.len() - self.insights.len(),
                )) by {
                    assert forall|i: int| 0 <= i < self.insights.len() implies string_views(
                        self.insights@,
                    )[i] == all.skip(all.len() - self.insights.len())[i] by {
                        assert(self.insights[i] == before[i + 1]);
                        assert(string_views(before)[i + 1] == before[i + 1]@);
                    }
                }
            }
        }
        proof {
            assert(all.skip(0) == all);
            assert(string_views(self.insights@) == newest(all, self.max_insights as nat));
        }
    }

    /// Offers each of `insights` in turn.
    pub fn add_all(&mut self, insights: Vec<String>)
        requires
            old(self).wf(),
        ensures
            final(self).wf(),
            final(self)@.valid(),
            final(self)@ == old(self)@.added_all(string_views(insights@)),
    {
        let ghost all = string_views(insights@);
        let ghost start = self@;
        let mut i: usize = 0;
        proof {
            assert(all.skip(0) == all);
            lemma_wf_valid(self);
        }
        while i < insights.len()
            invariant
                i <= insights.len(),
                self.wf(),
                self@.valid(),
                all == string_views(insights@),
                start.added_all(all) == self@.added_all(all.skip(i as int)),
            decreases insights.len() - i,
        {
            proof {
                let rest = all.skip(i as int);
                assert(rest[0] == insights@[i as int]@);
                assert(rest.drop_first() == all.skip(i + 1));
            }
            self.add(insights[i].clone());
            i += 1;
        }
    }

    /// Stores the insights that a model's reply lists. A reply that lists
    /// none in a form that can be read changes nothing.
    pub fn parse_and_add(&mut self, response: &str)
        requires
            old(self).wf(),
        ensures
            final(self).wf(),
            final(self)@.valid(),
            final(self)@ == old(self)@.added_all(listed_insights(response@)),
    {
        proof {
            lemma_wf_valid(self);
        }
        match parse_json_strings(response) {
            Some(items) => {
                self.add_all(items);
                return ;
            },
            None => {},
        }
        let trimmed = trim(&chars_of(response));
        match enclosed_chars(&trimmed, '[', ']') {
            Some(inner) => {
                let text = string_of(&inner);
                match parse_json_strings(text.as_str()) {
                    Some(items) => {
                        self.add_all(items);
                    },
                    None => {},
                }
            },
            None => {},
        }
    }

    /// Searches the outputs of a generation's teams for conflicts: every
    /// two teams whose conclusions share less than a quarter of their words
    /// are recorded as being in conflict.
    pub fn extract_conflicts(&mut self, team_outputs: &[(String, &TeamOutput)])
        requires
            old(self).wf(),
        ensures
            final(self).wf(),
            final(self)@.valid(),
            final(self)@ == after_conflicts(old(self)@, named_output_views(team_outputs@)),
    {
        proof {
            lemma_wf_valid(self);
        }
        if team_outputs.len() < 2 {
            return ;
        }
        let ghost teams = named_output_views(team_outputs@);
        let mut names: Vec<Vec<char>> = Vec::new();
        let mut words: Vec<WordSet> = Vec::new();
        let ghost mut found: Seq<(Seq<char>, Seq<char>)> = Seq::empty();
        let mut t: usize = 0;
        while t < team_outputs.len()
            invariant
                t <= team_outputs.len(),
                teams == named_output_views(team_outputs@),
                found == conclusions_of(teams, t as int),
                names@.len() == found.len(),
                words@.len() == found.len(),
                conclusions_held(names@, words@, found),
            decreases team_outputs.len() - t,
        {
            let output = team_outputs[t].1;
            proof {
                assert(teams[t as int] == (team_outputs@[t as int].0@, output@));
            }
            match first_standard_content(output) {
                Some(content) => {
                    let tail = tail_chars(&chars_of(content), CONCLUSION_WINDOW);
                    let conclusion = lowercase(&tail);
                    let set = WordSet::of_words(&split_words(&conclusion));
                    names.push(chars_of(team_outputs[t].0.as_str()));
                    words.push(set);
                    proof {
                        found = found.push((teams[t as int].0, conclusion@));
                    }
                },
                None => {},
            }
            t += 1;
        }
        let ghost start = self@;
        let n = names.len();
        let mut i: usize = 0;
        while i < n
            invariant
                i <= n,
                n == names@.len(),
                n == found.len(),
                words@.len() == n,
                self.wf(),
                self@.valid(),
                conclusions_held(names@, words@, found),
                self@ == after_rows(start, found, i as int),
            decreases n - i,
        {
            let mut j: usize = i + 1;
            while j < n
                invariant
                    i < n,
                    i + 1 <= j <= n,
                    n == names@.len(),
                    n == found.len(),
                    words@.len() == n,
                    self.wf(),
                    self@.valid(),
                    conclusions_held(names@, words@, found),
                    self@ == after_pairs(after_rows(start, found, i as int), found, i as int, j as int),
                decreases n - j,
            {
                let o = words[i].overlap(&words[j]);
                if is_below_quarter(o) {
                    let mut message = chars_of(CONFLICT_OPENING);
                    push_chars(&mut message, &names[i]);
                    push_str_chars(&mut message, CONFLICT_BETWEEN);
                    push_chars(&mut message, &names[j]);
                    push_str_chars(&mut message, CONFLICT_CLOSING);
                    self.add(string_of(&message));
                }
                j += 1;
            }
            i += 1;
        }
    }

    /// The stored insights, oldest first.
    pub fn hints(&self) -> (r: &[String])
        ensures
            string_views(r@) == self@.insights,
    {
        self.insights.as_slice()
    }

    /// Whether nothing is stored.
    pub fn is_empty(&self) -> (r: bool)
        ensures
            r == (self@.insights.len() == 0),
    {
        self.insights.len() == 0
    }

    /// The number of stored insights.
    pub fn len(&self) -> (r: usize)
        ensures
            r == self@.insights.len(),
    {
        self.insights.len()
    }

    /// The largest number of insights that may be stored.
    pub fn capacity(&self) -> (r: usize)
        ensures
            r == self@.capacity,
    {
        self.max_insights
    }

    /// Mines a judge's critique for warnings: each sentence that names a
    /// problem and does not open with praise is stored as an unresolved
    /// issue.
    pub fn extract_from_critique(&mut self, critique: &str)
        requires
            old(self).wf(),
        ensures
            final(self).wf(),
            final(self)@.valid(),
            final(self)@ == after_critique(old(self)@, critique@),
    {
        if critique.len() < 20 {
            return ;
        }
        let chars = chars_of(critique);
        let pieces = split_sentences(&chars);
        let ghost all = sentences_of(critique@);
        let ghost start = self@;
        let mut i: usize = 0;
        proof {
            assert(all.skip(0) == all);
        }
        while i < pieces.len()
            invariant
                i <= pieces.len(),
                self.wf(),
                views_of(pieces@) == all,
                after_sentences(start, all) == after_sentences(self@, all.skip(i as int)),
            decreases pieces.len() - i,
        {
            let sentence = trim(&pieces[i]);
            proof {
                let rest = all.skip(i as int);
                assert(rest[0] == pieces[i as int]@);
                assert(rest.drop_first() == all.skip(i + 1));
            }
            if sentence_is_warning(&sentence) {
                let mut warning = chars_of("UNRESOLVED: ");
                push_chars(&mut warning, &sentence);
                self.add(string_of(&warning));
            }
            i += 1;
        }
    }
}

impl Clone for KnowledgeBase {
    fn clone(&self) -> (r: Self)
        ensures
            r@ == self@,
            self.wf() ==> r.wf(),
    {
        let mut keys: Vec<Vec<char>> = Vec::new();
        let mut i: usize = 0;
        while i < self.keys.len()
            invariant
                i <= self.keys.len(),
                keys@.len() == i,
                forall|k: int| 0 <= k < i ==> (#[trigger] keys@[k])@ == self.keys@[k]@,
            decreases self.keys.len() - i,
        {
            keys.push(crate::text::slice_of(&self.keys[i], 0, self.keys[i].len()));
            proof {
                assert(self.keys@[i as int]@.subrange(0, self.keys@[i as int]@.len() as int)
                    == self.keys@[i as int]@);
            }
            i += 1;
        }
        let insights = crate::text::clone_strings(&self.insights);
        let r = KnowledgeBase { insights, keys, max_insights: self.max_insights };
        proof {
            if self.wf() {
                assert forall|i: int| 0 <= i < r.insights.len() implies (#[trigger] r.keys[i])@
                    == key_of(r.insights[i]@) by {
                    assert(string_views(r.insights@)[i] == string_views(self.insights@)[i]);
                    assert(self.keys[i]@ == key_of(self.insights[i]@));
                }
            }
        }
        r
    }
}

impl Default for KnowledgeBase {
    /// A knowledge base that stores nothing.
    fn default() -> (kb: Self)
        ensures
            kb.wf(),
            kb@.insights.len() == 0,
            kb@.capacity == 0,
    {
        KnowledgeBase::new(0)
    }
}

} // verus!
