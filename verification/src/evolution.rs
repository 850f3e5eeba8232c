//! The evolution engine: seeding a population, ranking the scored teams,
//! keeping the elites, and breeding the rest by crossover and mutation.
//!
//! Whatever is drawn at random is drawn through [`crate::chance`]; what is
//! done with a draw is verified for every outcome.

use vstd::prelude::*;
use rand::rngs::StdRng;
use crate::agent::{agent_views, Agent, AgentView};
use crate::chance::{draw_between, draw_index, draw_ratio, fresh_id, pick, shuffle};
use crate::config::Config;
use crate::genotype::{
    is_template, red_team_genotype, template, Genotype, GenotypeView, ReasoningStrategy,
    MUTATED_SUFFIX, TEMPLATE_COUNT, UNIT,
};
use crate::knowledge::KnowledgeBase;
use crate::orchestrator::{FitnessScore, FitnessView};
use crate::team::{Team, TeamOutput, TeamOutputView, TeamView};
use crate::text::{
    chars_of, contains_chars, decimal_chars, decimal_of, has_subseq, optional_view, push_chars,
    push_str_chars, string_of, string_views, strings_of,
};

verus! {

/// The number of names that teams are called by.
pub const NAME_COUNT: usize = 24;

/// The `i`-th team name, a Greek letter.
pub open spec fn greek(i: int) -> Seq<char> {
    if i == 0 {
        "Alpha"@
    } else if i == 1 {
        "Beta"@
    } else if i == 2 {
        "Gamma"@
    } else if i == 3 {
        "Delta"@
    } else if i == 4 {
        "Epsilon"@
    } else if i == 5 {
        "Zeta"@
    } else if i == 6 {
        "Eta"@
    } else if i == 7 {
        "Theta"@
    } else if i == 8 {
        "Iota"@
    } else if i == 9 {
        "Kappa"@
    } else if i == 10 {
        "Lambda"@
    } else if i == 11 {
        "Mu"@
    } else if i == 12 {
        "Nu"@
    } else if i == 13 {
        "Xi"@
    } else if i == 14 {
        "Omicron"@
    } else if i == 15 {
        "Pi"@
    } else if i == 16 {
        "Rho"@
    } else if i == 17 {
        "Sigma"@
    } else if i == 18 {
        "Tau"@
    } else if i == 19 {
        "Upsilon"@
    } else if i == 20 {
        "Phi"@
    } else if i == 21 {
        "Chi"@
    } else if i == 22 {
        "Psi"@
    } else {
        "Omega"@
    }
}

/// The name of the team at place `index` of generation `generation`: a
/// Greek letter, the places going round the alphabet, and from the second
/// generation on the generation's number.
pub open spec fn team_name_of(index: nat, generation: nat) -> Seq<char> {
    if generation == 0 {
        greek((index % 24) as int)
    } else {
        greek((index % 24) as int) + "-G"@ + decimal_of(generation)
    }
}

/// The `i`-th team name.
pub fn greek_letter(i: usize) -> (r: &'static str)
    requires
        i < NAME_COUNT,
    ensures
        r@ == greek(i as int),
{
    if i == 0 {
        "Alpha"
    } else if i == 1 {
        "Beta"
    } else if i == 2 {
        "Gamma"
    } else if i == 3 {
        "Delta"
    } else if i == 4 {
        "Epsilon"
    } else if i == 5 {
        "Zeta"
    } else if i == 6 {
        "Eta"
    } else if i == 7 {
        "Theta"
    } else if i == 8 {
        "Iota"
    } else if i == 9 {
        "Kappa"
    } else if i == 10 {
        "Lambda"
    } else if i == 11 {
        "Mu"
    } else if i == 12 {
        "Nu"
    } else if i == 13 {
        "Xi"
    } else if i == 14 {
        "Omicron"
    } else if i == 15 {
        "Pi"
    } else if i == 16 {
        "Rho"
    } else if i == 17 {
        "Sigma"
    } else if i == 18 {
        "Tau"
    } else if i == 19 {
        "Upsilon"
    } else if i == 20 {
        "Phi"
    } else if i == 21 {
        "Chi"
    } else if i == 22 {
        "Psi"
    } else {
        "Omega"
    }
}

/// The name of the team at place `index` of generation `generation`.
pub fn team_name(index: usize, generation: usize) -> (r: String)
    ensures
        r@ == team_name_of(index as nat, generation as nat),
{
    let mut name = chars_of(greek_letter(index % NAME_COUNT));
    if generation != 0 {
        push_str_chars(&mut name, "-G");
        let number = decimal_chars(generation as u64);
        push_chars(&mut name, &number);
    }
    string_of(&name)
}

/// The mathematical content of a [`ScoredTeam`].
pub ghost struct ScoredTeamView {
    pub team: TeamView,
    pub output: TeamOutputView,
    pub score: FitnessView,
}

/// A team with what it produced and the fitness it was given.
#[derive(Debug)]
pub struct ScoredTeam {
    pub team: Team,
    pub output: TeamOutput,
    pub score: FitnessScore,
}

impl View for ScoredTeam {
    type V = ScoredTeamView;

    open spec fn view(&self) -> ScoredTeamView {
        ScoredTeamView { team: self.team@, output: self.output@, score: self.score@ }
    }
}

impl Clone for ScoredTeam {
    fn clone(&self) -> (r: Self)
        ensures
            r@ == self@,
    {
        ScoredTeam {
            team: self.team.clone(),
            output: self.output.clone(),
            score: self.score.clone(),
        }
    }
}

/// The mathematical content of a [`PopulationMember`].
pub ghost struct MemberView {
    pub team: TeamView,
    pub cached: Option<(TeamOutputView, FitnessView)>,
}

/// A team of the next generation. An elite brings the output and the
/// fitness of its last execution along and is not executed again.
#[derive(Debug)]
pub struct PopulationMember {
    pub team: Team,
    pub cached: Option<(TeamOutput, FitnessScore)>,
}

impl View for PopulationMember {
    type V = MemberView;

    open spec fn view(&self) -> MemberView {
        MemberView {
            team: self.team@,
            cached: match self.cached {
                Some((output, score)) => Some((output@, score@)),
                None => None,
            },
        }
    }
}

/// The views of a vector of scored teams.
pub open spec fn scored_views(s: Seq<ScoredTeam>) -> Seq<ScoredTeamView> {
    Seq::new(s.len(), |i: int| s[i]@)
}

/// The views of a vector of members.
pub open spec fn member_views(s: Seq<PopulationMember>) -> Seq<MemberView> {
    Seq::new(s.len(), |i: int| s[i]@)
}

/// The views of a vector of teams.
pub open spec fn team_views(s: Seq<Team>) -> Seq<TeamView> {
    Seq::new(s.len(), |i: int| s[i]@)
}

/// The number of teams that `s` begins with whose total is at least
/// `total`.
pub open spec fn leading_at_least(s: Seq<ScoredTeamView>, total: u32) -> nat
    decreases s.len(),
{
    if s.len() > 0 && s[0].score.total >= total {
        1 + leading_at_least(s.drop_first(), total)
    } else {
        0
    }
}

/// A ranking with one more team: the team stands behind the teams at the
/// head of the ranking that score at least as much.
pub open spec fn placed(ranking: Seq<ScoredTeamView>, x: ScoredTeamView) -> Seq<ScoredTeamView> {
    ranking.insert(leading_at_least(ranking, x.score.total) as int, x)
}

/// The teams of `s` by falling total. Teams with the same total keep the
/// order in which they stand in `s`.
pub open spec fn ranked(s: Seq<ScoredTeamView>) -> Seq<ScoredTeamView>
    decreases s.len(),
{
    if s.len() == 0 {
        Seq::empty()
    } else {
        placed(ranked(s.drop_last()), s.last())
    }
}

/// Whether the totals of `s` never rise.
pub open spec fn is_falling(s: Seq<ScoredTeamView>) -> bool {
    forall|i: int, j: int| 0 <= i <= j < s.len() ==> s[i].score.total >= s[j].score.total
}

/// A head of `k` teams that score at least `total` and cannot be extended
/// has the length `leading_at_least`.
pub proof fn lemma_leading_at_least(s: Seq<ScoredTeamView>, total: u32, k: int)
    requires
        0 <= k <= s.len(),
        forall|j: int| 0 <= j < k ==> (#[trigger] s[j]).score.total >= total,
        k == s.len() || s[k].score.total < total,
    ensures
        leading_at_least(s, total) == k,
    decreases k,
{
    if k > 0 {
        let t = s.drop_first();
        assert forall|j: int| 0 <= j < k - 1 implies (#[trigger] t[j]).score.total >= total by {
            assert(t[j] == s[j + 1]);
        }
        if k < s.len() {
            assert(t[k - 1] == s[k]);
        }
        lemma_leading_at_least(t, total, k - 1);
    }
}

/// The head that `leading_at_least` measures lies within the ranking; the
/// teams in it score at least `total`, the team after it scores less.
pub proof fn lemma_leading_bounds(s: Seq<ScoredTeamView>, total: u32)
    ensures
        leading_at_least(s, total) <= s.len(),
        forall|j: int| 0 <= j < leading_at_least(s, total) ==> (#[trigger] s[j]).score.total >= total,
        leading_at_least(s, total) < s.len() ==> s[leading_at_least(s, total) as int].score.total
            < total,
    decreases s.len(),
{
    if s.len() > 0 && s[0].score.total >= total {
        let t = s.drop_first();
        lemma_leading_bounds(t, total);
        assert forall|j: int| 0 <= j < leading_at_least(s, total) implies (
        #[trigger] s[j]).score.total >= total by {
            if j > 0 {
                assert(s[j] == t[j - 1]);
            }
        }
        if leading_at_least(s, total) < s.len() {
            assert(s[leading_at_least(s, total) as int] == t[leading_at_least(t, total) as int]);
        }
    }
}

/// A ranking holds the teams it was made of, each as often as before, and
/// its totals never rise: the first team scores highest.
pub proof fn law_ranking_orders_by_total(s: Seq<ScoredTeamView>)
    ensures
        ranked(s).len() == s.len(),
        ranked(s).to_multiset() == s.to_multiset(),
        is_falling(ranked(s)),
    decreases s.len(),
{
    broadcast use vstd::seq_lib::group_to_multiset_ensures;

    if s.len() == 0 {
        assert(ranked(s).to_multiset() =~= s.to_multiset());
    } else {
        let before = ranked(s.drop_last());
        let x = s.last();
        law_ranking_orders_by_total(s.drop_last());
        lemma_leading_bounds(before, x.score.total);
        let k = leading_at_least(before, x.score.total) as int;
        let after = before.insert(k, x);
        assert(s == s.drop_last().push(x));
        assert(after.to_multiset() =~= before.to_multiset().insert(x));
        assert(s.to_multiset() =~= s.drop_last().to_multiset().insert(x));
        assert forall|i: int, j: int| 0 <= i <= j < after.len() implies after[i].score.total
            >= after[j].score.total by {
            if i < k && j > k {
                assert(after[i] == before[i]);
                assert(after[j] == before[j - 1]);
            } else if i < k && j < k {
                assert(after[i] == before[i]);
                assert(after[j] == before[j]);
            } else if i > k {
                assert(after[i] == before[i - 1]);
                assert(after[j] == before[j - 1]);
            } else if i == k && j > k {
                assert(after[j] == before[j - 1]);
                assert(before[k].score.total >= before[j - 1].score.total);
            } else if i < k && j == k {
                assert(after[i] == before[i]);
            }
        }
    }
}

/// Ranking changes nothing where the totals never rise: a ranking ranked
/// again is the same ranking.
pub proof fn law_ranking_keeps_a_ranking(s: Seq<ScoredTeamView>)
    requires
        is_falling(s),
    ensures
        ranked(s) == s,
        ranked(ranked(s)) == ranked(s),
    decreases s.len(),
{
    if s.len() > 0 {
        let shorter = s.drop_last();
        let x = s.last();
        assert forall|i: int, j: int| 0 <= i <= j < shorter.len() implies shorter[i].score.total
            >= shorter[j].score.total by {
            assert(shorter[i] == s[i]);
            assert(shorter[j] == s[j]);
        }
        law_ranking_keeps_a_ranking(shorter);
        assert forall|j: int| 0 <= j < shorter.len() implies (#[trigger] shorter[j]).score.total
            >= x.score.total by {
            assert(shorter[j] == s[j]);
            assert(x == s[s.len() - 1]);
        }
        lemma_leading_at_least(shorter, x.score.total, shorter.len() as int);
        assert(shorter.insert(shorter.len() as int, x) =~= s);
    } else {
        assert(ranked(s) =~= s);
    }
}

/// Ranks the scored teams by falling total, keeping the order of teams
/// with the same total.
pub fn rank(scored: &mut Vec<ScoredTeam>)
    ensures
        scored_views(final(scored)@) == ranked(scored_views(old(scored)@)),
        final(scored)@.len() == old(scored)@.len(),
{
    let ghost unranked = scored_views(scored@);
    let n = scored.len();
    let mut i: usize = 0;
    proof {
        assert(unranked.take(0) =~= Seq::<ScoredTeamView>::empty());
        assert(ranked(unranked.take(0)) + unranked.skip(0) =~= unranked);
    }
    while i < n
        invariant
            i <= n,
            n == scored@.len(),
            n == unranked.len(),
            scored_views(scored@) == ranked(unranked.take(i as int)) + unranked.skip(i as int),
            ranked(unranked.take(i as int)).len() == i,
        decreases n - i,
    {
        let ghost head = ranked(unranked.take(i as int));
        let ghost views_before = scored_views(scored@);
        let ghost before = scored@;
        let x = scored.remove(i);
        proof {
            assert(x@ == views_before[i as int]);
            assert(views_before[i as int] == unranked.skip(i as int)[0]);
            let now = scored_views(scored@);
            let want = head + unranked.skip(i + 1);
            assert(now.len() == want.len());
            assert forall|k: int| 0 <= k < now.len() implies now[k] == want[k] by {
                if k < i {
                    assert(scored@[k] == before[k]);
                    assert(views_before[k] == head[k]);
                } else {
                    assert(scored@[k] == before[k + 1]);
                    assert(views_before[k + 1] == unranked.skip(i as int)[k + 1 - i]);
                }
            }
            assert(now =~= want);
        }
        let mut at: usize = 0;
        while at < i && scored[at].score.total >= x.score.total
            invariant
                at <= i,
                i < n,
                scored@.len() == n - 1,
                head.len() == i,
                scored_views(scored@) == head + unranked.skip(i + 1),
                forall|j: int| 0 <= j < at ==> (#[trigger] head[j]).score.total >= x.score.total,
            decreases i - at,
        {
            proof {
                assert(scored_views(scored@)[at as int] == head[at as int]);
            }
            at += 1;
        }
        proof {
            if at < i {
                assert(scored_views(scored@)[at as int] == head[at as int]);
            }
            lemma_leading_at_least(head, x.score.total, at as int);
        }
        let ghost views_mid = scored_views(scored@);
        scored.insert(at, x);
        proof {
            let next = unranked.take(i + 1);
            assert(next.drop_last() == unranked.take(i as int));
            assert(next.last() == unranked[i as int]);
            assert(ranked(next) == head.insert(at as int, x@));
            assert(scored_views(scored@) =~= views_mid.insert(at as int, x@));
            assert(views_mid.insert(at as int, x@) =~= head.insert(at as int, x@) + unranked.skip(
                i + 1,
            ));
        }
        i += 1;
    }
    proof {
        assert(unranked.take(n as int) == unranked);
        assert(unranked.skip(n as int) =~= Seq::<ScoredTeamView>::empty());
        assert(ranked(unranked) + Seq::<ScoredTeamView>::empty() =~= ranked(unranked));
    }
}

/// The number of standard agents in a team of `team_size` agents: all but
/// the red-team agent, which a team of one does without.
pub open spec fn standard_count_of(team_size: nat) -> nat {
    if team_size > 1 {
        (team_size - 1) as nat
    } else {
        team_size
    }
}

/// Whether `p` arranges the numbers below `n`: it holds each of them once.
pub open spec fn is_arrangement(p: Seq<usize>, n: nat) -> bool {
    &&& p.len() == n
    &&& forall|i: int| 0 <= i < n ==> #[trigger] p[i] < n
    &&& p.no_duplicates()
}

/// Whether the standard agents of `team` are the templates in the order
/// `p`, going round the templates where the team has more agents than there
/// are templates.
pub open spec fn seeded_from(team: TeamView, p: Seq<usize>, standard: nat) -> bool {
    forall|i: int|
        0 <= i < standard ==> (#[trigger] team.agents[i]).genotype == template(
            p[i % (TEMPLATE_COUNT as int)] as int,
        )
}

/// Whether `team` is a team of the first generation at place `place`: its
/// standard agents are templates in some shuffled order, and a fresh
/// red-team agent closes it unless the team has one agent only.
pub open spec fn is_seed_team(team: TeamView, place: nat, team_size: nat) -> bool {
    &&& team.name == team_name_of(place, 0)
    &&& team.generation == 0
    &&& team.agents.len() == team_size
    &&& team_size > 1 ==> team.agents[team_size - 1].genotype == red_team_genotype()
    &&& exists|p: Seq<usize>|
        is_arrangement(p, TEMPLATE_COUNT as nat) && #[trigger] seeded_from(
            team,
            p,
            standard_count_of(team_size),
        )
}

/// A sequence with the same entries as the numbers below `n` in rising
/// order arranges them.
pub proof fn lemma_shuffled_is_arrangement(before: Seq<usize>, after: Seq<usize>, n: nat)
    requires
        before.len() == n,
        forall|i: int| 0 <= i < n ==> before[i] == i,
        after.to_multiset() == before.to_multiset(),
    ensures
        is_arrangement(after, n),
{
    broadcast use vstd::seq_lib::group_to_multiset_ensures;

    assert(after.len() == n) by {
        vstd::seq_lib::to_multiset_len(after);
        vstd::seq_lib::to_multiset_len(before);
    }
    assert forall|i: int| 0 <= i < n implies #[trigger] after[i] < n by {
        assert(after.contains(after[i]));
        vstd::seq_lib::to_multiset_contains(after, after[i]);
        vstd::seq_lib::to_multiset_contains(before, after[i]);
        let j = choose|j: int| 0 <= j < before.len() && before[j] == after[i];
    }
    assert(before.no_duplicates());
    before.lemma_multiset_has_no_duplicates();
    after.lemma_multiset_has_no_duplicates_conv();
}

/// A team of `team_size` agents whose standard agents are given: the
/// red-team agent is added unless the team has one agent only.
fn close_team(mut agents: Vec<Agent>, team_size: usize, place: usize, generation: usize) -> (team:
    Team)
    requires
        agents@.len() == standard_count_of(team_size as nat),
    ensures
        team@.name == team_name_of(place as nat, generation as nat),
        team@.generation == generation,
        team@.agents.len() == team_size,
        forall|i: int|
            0 <= i < standard_count_of(team_size as nat) ==> (#[trigger] team@.agents[i])
                == agents@[i]@,
        team_size > 1 ==> team@.agents[team_size - 1].genotype == red_team_genotype(),
{
    let ghost standard = agent_views(agents@);
    if team_size > 1 {
        agents.push(Agent::new(Genotype::red_team()));
    }
    let team = Team { id: fresh_id(), name: team_name(place, generation), agents, generation };
    proof {
        assert forall|i: int| 0 <= i < standard_count_of(team_size as nat) implies (
        #[trigger] team@.agents[i]) == standard[i] by {}
    }
    team
}

/// Seeds the first generation: `population_size` teams of `team_size`
/// agents each, every team with the templates in a shuffled order of its
/// own.
pub fn create_initial_population(config: &Config, rng: &mut StdRng) -> (teams: Vec<Team>)
    ensures
        teams@.len() == config.population_size,
        forall|k: int|
            0 <= k < teams@.len() ==> is_seed_team(
                (#[trigger] teams@[k])@,
                k as nat,
                config.team_size as nat,
            ),
{
    let templates = Genotype::templates();
    let standard_count = if config.team_size > 1 {
        config.team_size - 1
    } else {
        config.team_size
    };
    let mut teams: Vec<Team> = Vec::new();
    let mut place: usize = 0;
    while place < config.population_size
        invariant
            place <= config.population_size,
            teams@.len() == place,
            templates@.len() == TEMPLATE_COUNT,
            forall|i: int| 0 <= i < TEMPLATE_COUNT ==> (#[trigger] templates@[i])@ == template(i),
            standard_count == standard_count_of(config.team_size as nat),
            forall|k: int|
                0 <= k < teams@.len() ==> is_seed_team(
                    (#[trigger] teams@[k])@,
                    k as nat,
                    config.team_size as nat,
                ),
        decreases config.population_size - place,
    {
        let mut indices: Vec<usize> = Vec::new();
        let mut t: usize = 0;
        while t < TEMPLATE_COUNT
            invariant
                t <= TEMPLATE_COUNT,
                indices@.len() == t,
                forall|i: int| 0 <= i < t ==> indices@[i] == i,
            decreases TEMPLATE_COUNT - t,
        {
            indices.push(t);
            t += 1;
        }
        let ghost rising = indices@;
        shuffle(rng, &mut indices);
        proof {
            lemma_shuffled_is_arrangement(rising, indices@, TEMPLATE_COUNT as nat);
        }
        let mut agents: Vec<Agent> = Vec::new();
        let mut i: usize = 0;
        while i < standard_count
            invariant
                i <= standard_count,
                agents@.len() == i,
                templates@.len() == TEMPLATE_COUNT,
                forall|i: int|
                    0 <= i < TEMPLATE_COUNT ==> (#[trigger] templates@[i])@ == template(i),
                is_arrangement(indices@, TEMPLATE_COUNT as nat),
                forall|k: int|
                    0 <= k < i ==> (#[trigger] agents@[k])@.genotype == template(
                        indices@[k % (TEMPLATE_COUNT as int)] as int,
                    ),
            decreases standard_count - i,
        {
            let which = indices[i % TEMPLATE_COUNT];
            agents.push(Agent::new(templates[which].clone()));
            i += 1;
        }
        let ghost standard = agents@;
        let team = close_team(agents, config.team_size, place, 0);
        proof {
            assert(seeded_from(team@, indices@, standard_count as nat)) by {
                assert forall|i: int| 0 <= i < standard_count implies (
                #[trigger] team@.agents[i]).genotype == template(
                    indices@[i % (TEMPLATE_COUNT as int)] as int,
                ) by {
                    assert(team@.agents[i] == standard[i]@);
                }
            }
        }
        teams.push(team);
        place += 1;
    }
    teams
}

/// The genotype that a parent gives for a slot of the child: that of its
/// agent at the slot, going round its agents where it has fewer; none if it
/// has no agent.
pub open spec fn donor(parent: TeamView, slot: int) -> Option<GenotypeView> {
    if parent.agents.len() == 0 {
        None
    } else {
        Some(parent.agents[slot % (parent.agents.len() as int)].genotype)
    }
}

/// The blend of two genotypes: one of them, as picked, with the mean of
/// their temperatures, and never a red-team genotype.
pub open spec fn blended(first: GenotypeView, second: GenotypeView, pick_first: bool)
    -> GenotypeView {
    let base = if pick_first {
        first
    } else {
        second
    };
    GenotypeView {
        temperature: ((first.temperature + second.temperature) / 2) as u32,
        is_red_team: false,
        ..base
    }
}

/// What a donor has to give: its genotype, unless that is a red-team
/// genotype, which is never handed on.
pub open spec fn eligible(donor: Option<GenotypeView>) -> Option<GenotypeView> {
    match donor {
        Some(g) => if g.is_red_team {
            None
        } else {
            Some(g)
        },
        None => None,
    }
}

/// The genotype that two donors give to a child. Where both have a
/// genotype to give, the two are blended. Where one has none, the other
/// side's genotype is taken as it is. Where neither has one, nothing is
/// given, and the slot is filled with a template.
pub open spec fn crossed(
    a: Option<GenotypeView>,
    b: Option<GenotypeView>,
    pick_first: bool,
) -> Option<GenotypeView> {
    match (eligible(a), eligible(b)) {
        (Some(ga), Some(gb)) => Some(blended(ga, gb, pick_first)),
        (Some(ga), None) => Some(ga),
        (None, Some(gb)) => Some(gb),
        (None, None) => None,
    }
}

/// The view of an optional genotype.
pub open spec fn genotype_option_view(g: Option<Genotype>) -> Option<GenotypeView> {
    match g {
        Some(g) => Some(g@),
        None => None,
    }
}

/// The view of an optional reference to a genotype.
pub open spec fn genotype_ref_view(g: Option<&Genotype>) -> Option<GenotypeView> {
    match g {
        Some(g) => Some(g@),
        None => None,
    }
}

/// The genotype that two donors give to a child, for a given pick.
pub fn cross_genotypes(a: Option<&Genotype>, b: Option<&Genotype>, pick_first: bool) -> (r: Option<
    Genotype,
>)
    ensures
        genotype_option_view(r) == crossed(genotype_ref_view(a), genotype_ref_view(b), pick_first),
{
    let first = match a {
        Some(g) => if g.is_red_team {
            None
        } else {
            Some(g)
        },
        None => None,
    };
    let second = match b {
        Some(g) => if g.is_red_team {
            None
        } else {
            Some(g)
        },
        None => None,
    };
    match (first, second) {
        (Some(ga), Some(gb)) => {
            let mut child = if pick_first {
                ga.clone()
            } else {
                gb.clone()
            };
            child.temperature = ((ga.temperature as u64 + gb.temperature as u64) / 2) as u32;
            child.is_red_team = false;
            Some(child)
        },
        (Some(ga), None) => Some(ga.clone()),
        (None, Some(gb)) => Some(gb.clone()),
        (None, None) => None,
    }
}

/// Whether `g` can stand at a slot of a child of `a` and `b`: it is what
/// the donors give for one of the two picks, or a template where neither
/// parent has a genotype to give for the slot.
pub open spec fn is_child_slot(g: GenotypeView, a: TeamView, b: TeamView, slot: int) -> bool {
    let da = donor(a, slot);
    let db = donor(b, slot);
    if crossed(da, db, true) is None {
        is_template(g)
    } else {
        Some(g) == crossed(da, db, true) || Some(g) == crossed(da, db, false)
    }
}

/// Whether the red-team flag of every agent of a team goes with the
/// red-team strategy, and with no other.
pub open spec fn keeps_red_team_apart(team: TeamView) -> bool {
    forall|i: int|
        0 <= i < team.agents.len() ==> (#[trigger] team.agents[i]).genotype.is_red_team == (
        team.agents[i].genotype.strategy == ReasoningStrategy::RedTeam)
}

/// No standard slot of a child holds a red-team genotype: the flag is off,
/// and where the parents keep the red-team strategy to their red-team
/// agents, the strategy of the slot is a standard one.
pub proof fn law_child_slots_are_standard(g: GenotypeView, a: TeamView, b: TeamView, slot: int)
    requires
        0 <= slot,
        is_child_slot(g, a, b, slot),
    ensures
        !g.is_red_team,
        keeps_red_team_apart(a) && keeps_red_team_apart(b) ==> g.strategy
            != ReasoningStrategy::RedTeam,
{
    let da = donor(a, slot);
    let db = donor(b, slot);
    if crossed(da, db, true) is None {
        let i = choose|i: int| 0 <= i < TEMPLATE_COUNT && g == template(i);
    } else {
        if a.agents.len() > 0 {
            let k = slot % (a.agents.len() as int);
            assert(da == Some(a.agents[k].genotype));
        }
        if b.agents.len() > 0 {
            let k = slot % (b.agents.len() as int);
            assert(db == Some(b.agents[k].genotype));
        }
    }
}

/// Whether `child` can come of crossing `a` and `b` for the given place of
/// the given generation.
pub open spec fn is_child(
    child: TeamView,
    a: TeamView,
    b: TeamView,
    team_size: nat,
    generation: usize,
    place: nat,
) -> bool {
    &&& child.name == team_name_of(place, generation as nat)
    &&& child.generation == generation
    &&& child.agents.len() == team_size
    &&& forall|i: int|
        0 <= i < standard_count_of(team_size) ==> is_child_slot(
            (#[trigger] child.agents[i]).genotype,
            a,
            b,
            i,
        )
    &&& team_size > 1 ==> child.agents[team_size - 1].genotype == red_team_genotype()
}

/// The genotype that a parent gives for a slot.
fn donor_of(parent: &Team, slot: usize) -> (r: Option<&Genotype>)
    ensures
        genotype_ref_view(r) == donor(parent@, slot as int),
{
    if parent.agents.len() == 0 {
        None
    } else {
        let k = slot % parent.agents.len();
        proof {
            assert(parent@.agents[k as int] == parent.agents@[k as int]@);
        }
        Some(&parent.agents[k].genotype)
    }
}

/// Breeds a child of two parents: every standard slot is filled from the
/// parents' agents at that slot, with an even chance of which side the
/// genotype is based on. A red-team agent gives nothing; a slot for which
/// neither parent gives anything holds a template drawn at random. A fresh
/// red-team agent closes the team unless it has one agent only.
pub fn crossover(
    parent_a: &Team,
    parent_b: &Team,
    team_size: usize,
    generation: usize,
    child_index: usize,
    rng: &mut StdRng,
) -> (child: Team)
    ensures
        is_child(child@, parent_a@, parent_b@, team_size as nat, generation, child_index as nat),
{
    let standard_count = if team_size > 1 {
        team_size - 1
    } else {
        team_size
    };
    let mut agents: Vec<Agent> = Vec::new();
    let mut i: usize = 0;
    while i < standard_count
        invariant
            i <= standard_count,
            agents@.len() == i,
            forall|k: int|
                0 <= k < i ==> is_child_slot((#[trigger] agents@[k])@.genotype, parent_a@, parent_b@, k),
        decreases standard_count - i,
    {
        let donor_a = donor_of(parent_a, i);
        let donor_b = donor_of(parent_b, i);
        let both = match (donor_a, donor_b) {
            (Some(ga), Some(gb)) => !ga.is_red_team && !gb.is_red_team,
            _ => false,
        };
        let pick_first = if both {
            draw_ratio(rng, 1, 2)
        } else {
            true
        };
        let genotype = match cross_genotypes(donor_a, donor_b, pick_first) {
            Some(g) => g,
            None => Genotype::random(rng),
        };
        proof {
            assert(is_child_slot(genotype@, parent_a@, parent_b@, i as int));
        }
        agents.push(Agent::new(genotype));
        i += 1;
    }
    let ghost standard = agents@;
    let child = close_team(agents, team_size, child_index, generation);
    proof {
        assert forall|i: int| 0 <= i < standard_count_of(team_size as nat) implies is_child_slot(
            (#[trigger] child@.agents[i]).genotype,
            parent_a@,
            parent_b@,
            i,
        ) by {
            assert(child@.agents[i] == standard[i]@);
        }
    }
    child
}

/// The genotype with the hints of the knowledge base, if it has any.
pub open spec fn with_hints(g: GenotypeView, hints: Seq<Seq<char>>) -> GenotypeView {
    GenotypeView {
        knowledge_hints: if hints.len() > 0 {
            hints
        } else {
            g.knowledge_hints
        },
        ..g
    }
}

/// The genotype with the hints of the knowledge base, if it has any, and
/// with the judge's feedback, if there is any and it is not empty.
pub open spec fn refreshed(
    g: GenotypeView,
    feedback: Option<Seq<char>>,
    hints: Seq<Seq<char>>,
) -> GenotypeView {
    GenotypeView {
        judge_feedback: match feedback {
            Some(text) => if text.len() > 0 {
                Some(text)
            } else {
                g.judge_feedback
            },
            None => g.judge_feedback,
        },
        ..with_hints(g, hints)
    }
}

/// The mathematical content of a [`Mutation`].
pub ghost struct MutationView {
    pub delta: int,
    pub strategy: Option<ReasoningStrategy>,
    pub modifier: Option<Seq<char>>,
}

/// What was drawn for the mutation of one genotype: the change of its
/// temperature in millionths, the strategy it may be given, and the
/// sentence that may be appended to its base instruction.
#[derive(Clone, Copy, Debug)]
pub struct Mutation {
    pub delta: i32,
    pub strategy: Option<ReasoningStrategy>,
    pub modifier: Option<&'static str>,
}

impl View for Mutation {
    type V = MutationView;

    open spec fn view(&self) -> MutationView {
        MutationView {
            delta: self.delta as int,
            strategy: self.strategy,
            modifier: match self.modifier {
                Some(text) => Some(text@),
                None => None,
            },
        }
    }
}

/// Whether a mutation can be drawn: the temperature changes by at most
/// 0.15, the strategy is a standard one, the sentence is one of the
/// modifiers.
pub open spec fn is_possible_mutation(m: MutationView) -> bool {
    &&& -150_000 <= m.delta <= 150_000
    &&& m.strategy matches Some(s) ==> s != ReasoningStrategy::RedTeam
    &&& m.modifier matches Some(text) ==> crate::genotype::is_modifier(text)
}

/// The genotype after a mutation. The temperature changes and stays
/// between zero and two. A genotype that is not a red-team genotype takes
/// the drawn strategy if that differs from its own, and is then named after
/// it. The drawn sentence is appended to the base instruction unless it
/// stands there already.
pub open spec fn mutated(g: GenotypeView, m: MutationView) -> GenotypeView {
    let changes = !g.is_red_team && m.strategy is Some && m.strategy != Some(g.strategy);
    let appends = m.modifier is Some && !has_subseq(g.base_instruction, m.modifier->0);
    GenotypeView {
        temperature: crate::orchestrator::clamp(g.temperature + m.delta, 0, 2_000_000) as u32,
        strategy: if changes {
            m.strategy->0
        } else {
            g.strategy
        },
        name: if changes {
            m.strategy->0.label_text() + MUTATED_SUFFIX@
        } else {
            g.name
        },
        base_instruction: if appends {
            g.base_instruction + " "@ + m.modifier->0
        } else {
            g.base_instruction
        },
        ..g
    }
}

/// The view of an optional string slice.
pub open spec fn text_option_view(s: Option<&str>) -> Option<Seq<char>> {
    match s {
        Some(text) => Some(text@),
        None => None,
    }
}

/// Whether `new` can be what mutation makes of `old`: the genotype is
/// refreshed, and then either left as it is or mutated as some possible
/// draw says. A rate of zero never mutates, a rate of one or more always
/// does.
pub open spec fn is_mutation_result(
    new: GenotypeView,
    old: GenotypeView,
    rate: u32,
    feedback: Option<Seq<char>>,
    hints: Seq<Seq<char>>,
) -> bool {
    let base = refreshed(old, feedback, hints);
    ||| rate < UNIT && new == base
    ||| rate > 0 && exists|m: MutationView| is_possible_mutation(m) && new == #[trigger] mutated(
        base,
        m,
    )
}

/// Whether `new` can be what mutation makes of the team `old`: identity,
/// name and generation stay, and every agent keeps its identity and has a
/// genotype that mutation can make of its old one.
pub open spec fn is_mutated_team(
    new: TeamView,
    old: TeamView,
    rate: u32,
    feedback: Option<Seq<char>>,
    hints: Seq<Seq<char>>,
) -> bool {
    &&& new.id == old.id
    &&& new.name == old.name
    &&& new.generation == old.generation
    &&& new.agents.len() == old.agents.len()
    &&& forall|i: int|
        0 <= i < old.agents.len() ==> {
            &&& (#[trigger] new.agents[i]).id == old.agents[i].id
            &&& is_mutation_result(
                new.agents[i].genotype,
                old.agents[i].genotype,
                rate,
                feedback,
                hints,
            )
        }
}

/// Gives a genotype the hints of the knowledge base, if it has any.
pub fn refresh_hints(g: &mut Genotype, hints: &[String])
    ensures
        final(g)@ == with_hints(old(g)@, string_views(hints@)),
{
    if hints.len() > 0 {
        g.knowledge_hints = strings_of(hints);
    }
}

/// Gives a genotype the hints of the knowledge base and the judge's
/// feedback.
pub fn refresh_genotype(g: &mut Genotype, feedback: Option<&str>, hints: &[String])
    ensures
        final(g)@ == refreshed(old(g)@, text_option_view(feedback), string_views(hints@)),
{
    refresh_hints(g, hints);
    match feedback {
        Some(text) => {
            if !text.is_empty() {
                g.judge_feedback = Some(string_of(&chars_of(text)));
            }
        },
        None => {},
    }
}

/// Applies a mutation to a genotype.
pub fn apply_mutation(g: &mut Genotype, m: &Mutation)
    ensures
        final(g)@ == mutated(old(g)@, m@),
{
    let moved = g.temperature as i64 + m.delta as i64;
    g.temperature = if moved < 0 {
        0
    } else if moved > 2_000_000 {
        2_000_000
    } else {
        moved as u32
    };
    if !g.is_red_team {
        match m.strategy {
            Some(s) => {
                if s != g.strategy {
                    g.strategy = s;
                    let mut name = chars_of(s.label());
                    push_str_chars(&mut name, MUTATED_SUFFIX);
                    g.name = string_of(&name);
                }
            },
            None => {},
        }
    }
    match m.modifier {
        Some(text) => {
            let mut base = chars_of(g.base_instruction.as_str());
            let sentence = chars_of(text);
            if !contains_chars(&base, &sentence) {
                push_str_chars(&mut base, " ");
                push_chars(&mut base, &sentence);
                g.base_instruction = string_of(&base);
            }
        },
        None => {},
    }
}

/// Draws a mutation: a change of temperature of at most 0.15 either way;
/// for a genotype that is not a red-team genotype, with one chance in four,
/// a standard strategy; with one chance in five, one of the modifiers.
pub fn draw_mutation(rng: &mut StdRng, is_red_team: bool) -> (m: Mutation)
    ensures
        is_possible_mutation(m@),
        is_red_team ==> m.strategy is None,
{
    let delta = (draw_between(rng, 0, 300_000) as i64 - 150_000) as i32;
    let strategy = if !is_red_team && draw_ratio(rng, 1, 4) {
        Some(ReasoningStrategy::random(rng))
    } else {
        None
    };
    let modifier = if draw_ratio(rng, 1, 5) {
        let all = crate::genotype::mutation_modifiers();
        match pick(rng, all) {
            Some(text) => {
                proof {
                    let k = choose|k: int| 0 <= k < all@.len() && all@[k] == *text;
                    assert(all@[k]@ == crate::genotype::modifier(k));
                }
                Some(*text)
            },
            None => None,
        }
    } else {
        None
    };
    Mutation { delta, strategy, modifier }
}

/// Mutates a team in place. Every genotype is given the hints of the
/// knowledge base and the judge's feedback; then, with the chance that the
/// mutation rate gives, a mutation is drawn for it and applied.
pub fn mutate(
    team: &mut Team,
    mutation_rate: u32,
    judge_feedback: Option<&str>,
    knowledge: &KnowledgeBase,
    rng: &mut StdRng,
)
    ensures
        is_mutated_team(
            final(team)@,
            old(team)@,
            mutation_rate,
            text_option_view(judge_feedback),
            knowledge@.insights,
        ),
{
    let rate = if mutation_rate > UNIT {
        UNIT
    } else {
        mutation_rate
    };
    let ghost feedback = text_option_view(judge_feedback);
    let ghost hints = knowledge@.insights;
    let ghost before = team@.agents;
    let mut agents: Vec<Agent> = Vec::new();
    let mut i: usize = 0;
    while i < team.agents.len()
        invariant
            i <= team.agents.len(),
            agents@.len() == i,
            *team == *old(team),
            before == team@.agents,
            hints == knowledge@.insights,
            feedback == text_option_view(judge_feedback),
            rate == (if mutation_rate > UNIT {
                UNIT
            } else {
                mutation_rate
            }),
            forall|k: int|
                0 <= k < i ==> {
                    &&& (#[trigger] agents@[k])@.id == before[k].id
                    &&& is_mutation_result(
                        agents@[k]@.genotype,
                        before[k].genotype,
                        mutation_rate,
                        feedback,
                        hints,
                    )
                },
        decreases team.agents.len() - i,
    {
        let mut agent = team.agents[i].clone();
        proof {
            assert(before[i as int] == team.agents@[i as int]@);
        }
        refresh_genotype(&mut agent.genotype, judge_feedback, knowledge.hints());
        let ghost base = agent.genotype@;
        if draw_ratio(rng, rate, UNIT) {
            let m = draw_mutation(rng, agent.genotype.is_red_team);
            apply_mutation(&mut agent.genotype, &m);
            proof {
                assert(is_possible_mutation(m@) && agent.genotype@ == mutated(base, m@));
            }
        }
        agents.push(agent);
        i += 1;
    }
    team.agents = agents;
    proof {
        assert forall|i: int| 0 <= i < before.len() implies {
            &&& (#[trigger] team@.agents[i]).id == before[i].id
            &&& is_mutation_result(
                team@.agents[i].genotype,
                before[i].genotype,
                mutation_rate,
                feedback,
                hints,
            )
        } by {
            assert(team@.agents[i] == agents@[i]@);
        }
    }
}

/// The feedback that the children of a generation are given: the critique
/// of the team that stands first in the ranking, the best elite, unless it
/// is empty.
pub open spec fn best_feedback_of(ranking: Seq<ScoredTeamView>) -> Option<Seq<char>> {
    if ranking.len() > 0 && ranking[0].score.judge_critique.len() > 0 {
        Some(ranking[0].score.judge_critique)
    } else {
        None
    }
}

/// An elite team as it enters the next generation: renamed for its place,
/// with the hints of the knowledge base, otherwise as it was.
pub open spec fn elite_team(
    team: TeamView,
    place: nat,
    generation: usize,
    hints: Seq<Seq<char>>,
) -> TeamView {
    TeamView {
        id: team.id,
        name: team_name_of(place, generation as nat),
        agents: Seq::new(
            team.agents.len(),
            |i: int|
                AgentView {
                    id: team.agents[i].id,
                    genotype: with_hints(team.agents[i].genotype, hints),
                },
        ),
        generation,
    }
}

/// An elite as a member of the next generation: it brings its output and
/// its fitness along.
pub open spec fn elite_member(
    s: ScoredTeamView,
    place: nat,
    generation: usize,
    hints: Seq<Seq<char>>,
) -> MemberView {
    MemberView {
        team: elite_team(s.team, place, generation, hints),
        cached: Some((s.output, s.score)),
    }
}

/// Whether `member` can be bred from the parents `a` and `b` by way of the
/// child `child`: the child comes of crossing the parents, and the member
/// of mutating the child.
pub open spec fn bred_from(
    member: TeamView,
    child: TeamView,
    a: TeamView,
    b: TeamView,
    team_size: nat,
    generation: usize,
    place: nat,
    rate: u32,
    feedback: Option<Seq<char>>,
    hints: Seq<Seq<char>>,
) -> bool {
    &&& is_child(child, a, b, team_size, generation, place)
    &&& is_mutated_team(member, child, rate, feedback, hints)
}

/// Whether `member` can be a child in the next generation: it was not
/// executed yet, and it can be bred from two of the elites as they stood
/// before they were renamed.
pub open spec fn is_offspring(
    member: MemberView,
    elites: Seq<ScoredTeamView>,
    team_size: nat,
    generation: usize,
    place: nat,
    rate: u32,
    feedback: Option<Seq<char>>,
    hints: Seq<Seq<char>>,
) -> bool {
    &&& member.cached is None
    &&& exists|a: int, b: int, child: TeamView|
        0 <= a < elites.len() && 0 <= b < elites.len() && #[trigger] bred_from(
            member.team,
            child,
            elites[a].team,
            elites[b].team,
            team_size,
            generation,
            place,
            rate,
            feedback,
            hints,
        )
}

/// The number of elites that are kept of `available` scored teams.
pub open spec fn kept_of(elite_count: usize, available: nat) -> nat {
    if elite_count < available {
        elite_count as nat
    } else {
        available
    }
}

/// Whether `members` can be the next generation made of the scored teams
/// `before`, with `left` staying behind. The best `elite_count` teams of
/// the ranking come first, as elites; the places up to `population_size`
/// hold children of those elites; the teams that are no elites stay behind
/// in the order of the ranking.
pub open spec fn is_next_generation(
    members: Seq<MemberView>,
    left: Seq<ScoredTeamView>,
    before: Seq<ScoredTeamView>,
    elite_count: usize,
    population_size: usize,
    team_size: usize,
    mutation_rate: u32,
    generation: usize,
    hints: Seq<Seq<char>>,
) -> bool {
    let ranking = ranked(before);
    let kept = kept_of(elite_count, before.len()) as int;
    &&& left == ranking.skip(kept)
    &&& members.len() == (if population_size > kept {
        population_size as int
    } else {
        kept
    })
    &&& forall|i: int|
        0 <= i < kept ==> #[trigger] members[i] == elite_member(
            ranking[i],
            i as nat,
            generation,
            hints,
        )
    &&& forall|i: int|
        kept <= i < members.len() ==> is_offspring(
            #[trigger] members[i],
            ranking.take(kept),
            team_size as nat,
            generation,
            i as nat,
            mutation_rate,
            best_feedback_of(ranking),
            hints,
        )
}

/// An elite team for its place in the next generation.
fn promote(team: Team, place: usize, generation: usize, hints: &[String]) -> (r: Team)
    ensures
        r@ == elite_team(team@, place as nat, generation, string_views(hints@)),
{
    let mut agents: Vec<Agent> = Vec::new();
    let mut i: usize = 0;
    while i < team.agents.len()
        invariant
            i <= team.agents.len(),
            agents@.len() == i,
            forall|k: int|
                0 <= k < i ==> (#[trigger] agents@[k])@ == (AgentView {
                    id: team.agents@[k]@.id,
                    genotype: with_hints(team.agents@[k]@.genotype, string_views(hints@)),
                }),
        decreases team.agents.len() - i,
    {
        let mut agent = team.agents[i].clone();
        refresh_hints(&mut agent.genotype, hints);
        agents.push(agent);
        i += 1;
    }
    let r = Team { id: team.id, name: team_name(place, generation), agents, generation };
    proof {
        assert(r@.agents =~= elite_team(
            team@,
            place as nat,
            generation,
            string_views(hints@),
        ).agents);
    }
    r
}

/// Makes the next generation of the scored teams of this one. The teams
/// are ranked; the best `elite_count` of them enter the next generation
/// first, renamed, with fresh hints and with the output and fitness they
/// have; the places up to `population_size` are filled with children, each
/// bred from two elites drawn at random and then mutated. The teams that
/// are no elites stay behind in `scored`, in the order of their ranking.
pub fn next_generation(
    scored: &mut Vec<ScoredTeam>,
    config: &Config,
    generation: usize,
    knowledge: &KnowledgeBase,
    rng: &mut StdRng,
) -> (members: Vec<PopulationMember>)
    requires
        old(scored)@.len() > 0,
        config.elite_count > 0,
    ensures
        is_next_generation(
            member_views(members@),
            scored_views(final(scored)@),
            scored_views(old(scored)@),
            config.elite_count,
            config.population_size,
            config.team_size,
            config.mutation_rate,
            generation,
            knowledge@.insights,
        ),
{
    let ghost before = scored_views(scored@);
    let ghost ranking = ranked(before);
    let ghost hints = knowledge@.insights;
    proof {
        law_ranking_orders_by_total(before);
    }
    rank(scored);
    proof {
        assert(ranking[0] == scored@[0]@);
    }
    let best_feedback: Option<String> = if scored[0].score.judge_critique.as_str().is_empty() {
        None
    } else {
        Some(scored[0].score.judge_critique.clone())
    };
    let ghost feedback = best_feedback_of(ranking);
    let kept = if config.elite_count < scored.len() {
        config.elite_count
    } else {
        scored.len()
    };
    let mut parents: Vec<Team> = Vec::new();
    let mut members: Vec<PopulationMember> = Vec::new();
    let mut i: usize = 0;
    proof {
        assert(ranking.skip(0) == ranking);
    }
    while i < kept
        invariant
            i <= kept,
            kept <= ranking.len(),
            kept == kept_of(config.elite_count, before.len()),
            hints == knowledge@.insights,
            scored@.len() == ranking.len() - i,
            scored_views(scored@) == ranking.skip(i as int),
            parents@.len() == i,
            members@.len() == i,
            forall|k: int| 0 <= k < i ==> (#[trigger] parents@[k])@ == ranking[k].team,
            forall|k: int|
                0 <= k < i ==> (#[trigger] members@[k])@ == elite_member(
                    ranking[k],
                    k as nat,
                    generation,
                    hints,
                ),
        decreases kept - i,
    {
        let ghost views = scored_views(scored@);
        let ghost inner = scored@;
        let st = scored.remove(0);
        proof {
            assert(st@ == views[0]);
            assert(views[0] == ranking[i as int]);
            assert(scored_views(scored@) =~= ranking.skip(i + 1)) by {
                assert forall|k: int| 0 <= k < scored@.len() implies scored_views(scored@)[k]
                    == ranking.skip(i + 1)[k] by {
                    assert(scored@[k] == inner[k + 1]);
                    assert(views[k + 1] == ranking.skip(i as int)[k + 1]);
                }
            }
        }
        parents.push(st.team.clone());
        let ScoredTeam { team, output, score } = st;
        let elite = promote(team, i, generation, knowledge.hints());
        members.push(PopulationMember { team: elite, cached: Some((output, score)) });
        i += 1;
    }
    let ghost elites = ranking.take(kept as int);
    let mut place: usize = members.len();
    while members.len() < config.population_size
        invariant
            kept > 0,
            kept <= ranking.len(),
            place == members@.len(),
            members@.len() >= kept,
            members@.len() <= config.population_size || members@.len() == kept,
            parents@.len() == kept,
            elites == ranking.take(kept as int),
            hints == knowledge@.insights,
            feedback == optional_view(best_feedback),
            forall|k: int| 0 <= k < kept ==> (#[trigger] parents@[k])@ == ranking[k].team,
            forall|k: int|
                0 <= k < kept ==> (#[trigger] members@[k])@ == elite_member(
                    ranking[k],
                    k as nat,
                    generation,
                    hints,
                ),
            forall|k: int|
                kept <= k < members@.len() ==> is_offspring(
                    (#[trigger] members@[k])@,
                    elites,
                    config.team_size as nat,
                    generation,
                    k as nat,
                    config.mutation_rate,
                    feedback,
                    hints,
                ),
        decreases config.population_size - members@.len(),
    {
        let a = draw_index(rng, parents.len());
        let b = draw_index(rng, parents.len());
        let mut child = crossover(
            &parents[a],
            &parents[b],
            config.team_size,
            generation,
            place,
            rng,
        );
        let ghost crossed_child = child@;
        let given: Option<&str> = match &best_feedback {
            Some(text) => Some(text.as_str()),
            None => None,
        };
        mutate(&mut child, config.mutation_rate, given, knowledge, rng);
        proof {
            assert(elites[a as int].team == parents@[a as int]@);
            assert(elites[b as int].team == parents@[b as int]@);
            assert(bred_from(
                child@,
                crossed_child,
                elites[a as int].team,
                elites[b as int].team,
                config.team_size as nat,
                generation,
                place as nat,
                config.mutation_rate,
                feedback,
                hints,
            ));
        }
        let ghost mutated_child = child@;
        let ghost earlier = members@;
        members.push(PopulationMember { team: child, cached: None });
        proof {
            let m = members@[place as int]@;
            assert(m.team == mutated_child);
            assert(m.cached is None);
            assert(is_offspring(
                m,
                elites,
                config.team_size as nat,
                generation,
                place as nat,
                config.mutation_rate,
                feedback,
                hints,
            ));
            assert forall|k: int| 0 <= k < place implies members@[k] == earlier[k] by {}
        }
        place += 1;
    }
    proof {
        let views = member_views(members@);
        assert forall|i: int| 0 <= i < kept implies #[trigger] views[i] == elite_member(
            ranking[i],
            i as nat,
            generation,
            hints,
        ) by {
            assert(views[i] == members@[i]@);
        }
        assert forall|i: int| kept <= i < views.len() implies is_offspring(
            #[trigger] views[i],
            ranking.take(kept as int),
            config.team_size as nat,
            generation,
            i as nat,
            config.mutation_rate,
            best_feedback_of(ranking),
            hints,
        ) by {
            assert(views[i] == members@[i]@);
        }
    }
    members
}

} // verus!
