//! Building the engine from a configuration.

use vstd::prelude::*;
use crate::config::{
    enabled_in, enabled_positions, id_is_repeated, positions, rule_views, severity_in,
    ConfigView, GuardianConfig, RuleView,
};
use crate::domain::violations::GuardianError;
use crate::patterns::checks::{concat3, concat5};
use crate::patterns::{rule_compiles, with_rule, EngineView, PatternEngine, StructuralRuleView, TextRuleView};

verus! {

/// The rule at a position `(category, rule)` of a configuration.
pub open spec fn rule_at(c: ConfigView, p: (int, int)) -> RuleView {
    c.categories[p.0].1.rules[p.1]
}

/// No category holds two rules with one identifier.
pub open spec fn ids_are_distinct(c: ConfigView) -> bool {
    forall|k: int, i: int|
        0 <= k < c.categories.len() && 0 <= i < c.categories[k].1.rules.len()
            ==> !#[trigger] id_is_repeated(c.categories[k].1.rules, i)
}

/// The engine that holds the rules at the first `n` of the given positions, each
/// added in turn under the severity that applies to it.
pub open spec fn registry(c: ConfigView, ps: Seq<(int, int)>, n: int) -> EngineView
    decreases n,
{
    if n <= 0 {
        EngineView {
            text: Seq::<TextRuleView>::empty(),
            structural: Seq::<StructuralRuleView>::empty(),
        }
    } else {
        with_rule(
            registry(c, ps, n - 1),
            rule_at(c, ps[n - 1]),
            severity_in(c.categories[ps[n - 1].0].1, rule_at(c, ps[n - 1])),
        )
    }
}

/// The positions of the enabled rules of a configuration.
pub open spec fn enabled(c: ConfigView) -> Seq<(int, int)> {
    enabled_positions(c.categories, c.categories.len() as int)
}

/// Whether an engine can be built from a configuration: no category repeats an
/// identifier, and every enabled rule compiles.
pub open spec fn can_compile(c: ConfigView) -> bool {
    &&& ids_are_distinct(c)
    &&& forall|j: int| 0 <= j < enabled(c).len() ==> rule_compiles(rule_at(c, #[trigger] enabled(c)[j]))
}

proof fn lemma_enabled_in_bounds(rules: Seq<RuleView>, k: int, n: int)
    requires
        0 <= n <= rules.len(),
    ensures
        forall|j: int|
            0 <= j < enabled_in(rules, k, n).len() ==> (#[trigger] enabled_in(rules, k, n)[j]).0 == k
                && 0 <= enabled_in(rules, k, n)[j].1 < n,
    decreases n,
{
    if n > 0 {
        lemma_enabled_in_bounds(rules, k, n - 1);
        let prev = enabled_in(rules, k, n - 1);
        let cur = enabled_in(rules, k, n);
        assert forall|j: int| 0 <= j < cur.len() implies (#[trigger] cur[j]).0 == k && 0
            <= cur[j].1 < n by {
            if j < prev.len() {
                assert(cur[j] == prev[j]);
            }
        }
    }
}

proof fn lemma_enabled_positions_bounds(c: ConfigView, k: int)
    requires
        0 <= k <= c.categories.len(),
    ensures
        forall|j: int|
            0 <= j < enabled_positions(c.categories, k).len() ==> {
                let p = #[trigger] enabled_positions(c.categories, k)[j];
                0 <= p.0 < k && 0 <= p.1 < c.categories[p.0].1.rules.len()
            },
    decreases k,
{
    if k > 0 {
        lemma_enabled_positions_bounds(c, k - 1);
        let rules = c.categories[k - 1].1.rules;
        lemma_enabled_in_bounds(rules, k - 1, rules.len() as int);
        let prev = enabled_positions(c.categories, k - 1);
        let here = enabled_in(rules, k - 1, rules.len() as int);
        let cur = enabled_positions(c.categories, k);
        assert forall|j: int| 0 <= j < cur.len() implies {
            let p = #[trigger] cur[j];
            0 <= p.0 < k && 0 <= p.1 < c.categories[p.0].1.rules.len()
        } by {
            if j < prev.len() {
                assert(cur[j] == prev[j]);
            } else if c.categories[k - 1].1.enabled {
                assert(cur[j] == here[j - prev.len()]);
            }
        }
    }
}

/// How the message for a rule that does not compile begins; what follows says
/// why the rule does not compile.
pub open spec fn failed_rule_lead(id: Seq<char>, category: Seq<char>) -> Seq<char> {
    "Failed to add rule '"@ + id + "' in category '"@ + category + "': "@
}

/// Whether `message` tells why no engine can be built from a configuration: it
/// names a repeated identifier, or it begins by naming the first enabled rule
/// that does not compile.
pub open spec fn tells_failure(c: ConfigView, message: Seq<char>) -> bool {
    if !ids_are_distinct(c) {
        exists|k: int, i: int|
            0 <= k < c.categories.len() && 0 <= i < c.categories[k].1.rules.len()
                && #[trigger] id_is_repeated(c.categories[k].1.rules, i) && message
                == crate::config::duplicate_message(c.categories[k].1.rules[i].id, c.categories[k].0)
    } else {
        exists|j: int|
            0 <= j < enabled(c).len() && !rule_compiles(rule_at(c, #[trigger] enabled(c)[j]))
                && (forall|x: int| 0 <= x < j ==> rule_compiles(rule_at(c, #[trigger] enabled(c)[x])))
                && crate::text::has_prefix(
                message,
                failed_rule_lead(rule_at(c, enabled(c)[j]).id, c.categories[enabled(c)[j].0].0),
            )
    }
}

fn failed_rule(id: &str, category: &str, why: &GuardianError) -> (e: GuardianError)
    ensures
        e matches GuardianError::Configuration { message } && crate::text::has_prefix(
            message@,
            failed_rule_lead(id@, category@),
        ),
{
    let reason = why.to_text();
    let head = concat5("Failed to add rule '", id, "' in category '", category, "': ");
    let message = concat3(head.as_str(), reason.as_str(), "");
    assert(head@ =~= failed_rule_lead(id@, category@));
    assert(message@.subrange(0, head@.len() as int) =~= head@);
    GuardianError::Configuration { message }
}

impl PatternEngine {
    /// Builds the engine of a configuration: every enabled rule of every enabled
    /// category, compiled under the severity that applies to it. One rule that
    /// does not compile, or one identifier used twice in a category, fails the
    /// whole build.
    pub fn compile(config: &GuardianConfig) -> (r: Result<PatternEngine, GuardianError>)
        ensures
            r is Ok <==> can_compile(config@),
            r matches Ok(e) ==> e@ == registry(config@, enabled(config@), enabled(config@).len() as int)
                && e.wf(),
            r matches Err(e) ==> e is Configuration,
            r matches Err(GuardianError::Configuration { message }) ==> tells_failure(
                config@,
                message@,
            ),
    {
        let ghost c = config@;
        let mut k: usize = 0;
        while k < config.patterns.len()
            invariant
                k <= config.patterns.len(),
                c == config@,
                forall|a: int, i: int|
                    0 <= a < k && 0 <= i < c.categories[a].1.rules.len()
                        ==> !#[trigger] id_is_repeated(c.categories[a].1.rules, i),
            decreases config.patterns.len() - k,
        {
            let entry = &config.patterns[k];
            let rules = &entry.category.rules;
            assert(c.categories[k as int].1.rules == rule_views(rules@));
            assert(c.categories[k as int].0 == entry.name@);
            let mut i: usize = 0;
            while i < rules.len()
                invariant
                    i <= rules.len(),
                    k < config.patterns@.len(),
                    c == config@,
                    c.categories[k as int].1.rules == rule_views(rules@),
                    c.categories[k as int].0 == entry.name@,
                    forall|x: int| 0 <= x < i ==> !id_is_repeated(rule_views(rules@), x),
                decreases rules.len() - i,
            {
                if GuardianConfig::id_repeats(rules, i) {
                    let message = concat5(
                        "Duplicate rule ID '",
                        rules[i].id.as_str(),
                        "' in category '",
                        entry.name.as_str(),
                        "'",
                    );
                    assert(!ids_are_distinct(c));
                    assert(c.categories[k as int].0 == entry.name@);
                    assert(c.categories[k as int].1.rules[i as int] == rules@[i as int]@);
                    assert(message@ =~= crate::config::duplicate_message(
                        rules@[i as int]@.id,
                        entry.name@,
                    ));
                    assert(id_is_repeated(c.categories[k as int].1.rules, i as int));
                    return Err(GuardianError::Configuration { message });
                }
                i += 1;
            }
            k += 1;
        }
        assert(ids_are_distinct(c));
        let ps = config.enabled_rules();
        let ghost spec_ps = enabled(c);
        proof {
            lemma_enabled_positions_bounds(c, c.categories.len() as int);
        }
        let mut engine = PatternEngine::new();
        let mut j: usize = 0;
        assert(engine@.text =~= Seq::<TextRuleView>::empty());
        assert(engine@.structural =~= Seq::<StructuralRuleView>::empty());
        while j < ps.len()
            invariant
                j <= ps.len(),
                c == config@,
                spec_ps == enabled(c),
                positions(ps@) == spec_ps,
                ids_are_distinct(c),
                forall|x: int|
                    0 <= x < spec_ps.len() ==> {
                        let p = #[trigger] spec_ps[x];
                        0 <= p.0 < c.categories.len() && 0 <= p.1 < c.categories[p.0].1.rules.len()
                    },
                forall|x: int| 0 <= x < j ==> rule_compiles(rule_at(c, #[trigger] spec_ps[x])),
                engine@ == registry(c, spec_ps, j as int),
                engine.wf(),
            decreases ps.len() - j,
        {
            let (a, i) = ps[j];
            assert(spec_ps[j as int] == (a as int, i as int));
            assert(spec_ps.len() == ps@.len());
            let entry = &config.patterns[a];
            assert(c.categories[a as int].1 == entry.category@);
            let rule = &entry.category.rules[i];
            assert(rule_at(c, spec_ps[j as int]) == rule@);
            let severity = config.effective_severity(&entry.category, rule);
            match engine.add_rule(rule, severity) {
                Ok(()) => {},
                Err(e) => {
                    let failure = failed_rule(rule.id.as_str(), entry.name.as_str(), &e);
                    proof {
                        assert(!rule_compiles(rule_at(c, enabled(c)[j as int])));
                        assert(c.categories[enabled(c)[j as int].0].0 == entry.name@);
                        assert(rule_at(c, enabled(c)[j as int]).id == rule.id@);
                    }
                    return Err(failure);
                },
            }
            j += 1;
        }
        Ok(engine)
    }
}

} // verus!
