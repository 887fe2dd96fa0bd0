//! The rule state machine at the pipeline's end. Each named rule owns a
//! chain of stages; for every activation set each rule advances: the armed
//! stage matches and the chain moves on (or fires its action at the end),
//! times out and the rule disarms, or nothing happens. The first stage of a
//! chain always evaluates without a clock.

use vstd::prelude::*;

use crate::action::{parse_action, parse_action_spec, Action, ActionView};
use crate::config::{MatchConfig, MatchStageConfig, DEFAULT_THRESHOLD, DEFAULT_TIMEOUT_MS};

verus! {

pub enum StageResult {
    Noop,
    Matched,
    Timeout,
}

/// One stage of a rule chain: a model name, the score it must reach, and
/// how long the rule stays armed waiting for it.
pub struct MatchStage {
    pub model: String,
    pub activation_threshold: i64,
    pub timeout_ms: u64,
}

/// The mathematical content of a stage.
pub struct StageView {
    pub model: Seq<char>,
    pub activation_threshold: i64,
    pub timeout_ms: u64,
}

impl View for MatchStage {
    type V = StageView;

    open spec fn view(&self) -> StageView {
        StageView {
            model: self.model@,
            activation_threshold: self.activation_threshold,
            timeout_ms: self.timeout_ms,
        }
    }
}

/// The first score listed under `name`, if any.
pub open spec fn first_score(acts: Seq<(String, i64)>, name: Seq<char>) -> Option<i64>
    decreases acts.len(),
{
    if acts.len() == 0 {
        None
    } else if acts[0].0@ == name {
        Some(acts[0].1)
    } else {
        first_score(acts.skip(1), name)
    }
}

/// The stage's model is listed and its first score reaches the threshold.
pub open spec fn stage_matched(stage: StageView, acts: Seq<(String, i64)>) -> bool {
    match first_score(acts, stage.model) {
        Some(a) => a >= stage.activation_threshold,
        None => false,
    }
}

/// What one stage evaluation yields: a match wins over a timeout, a timeout
/// needs an armed clock strictly older than the stage's window.
pub open spec fn stage_eval_spec(
    stage: StageView,
    started_ms: Option<u64>,
    now_ms: u64,
    acts: Seq<(String, i64)>,
) -> StageResult {
    if stage_matched(stage, acts) {
        StageResult::Matched
    } else {
        match started_ms {
            Some(t0) => if now_ms as int - t0 as int > stage.timeout_ms as int {
                StageResult::Timeout
            } else {
                StageResult::Noop
            },
            None => StageResult::Noop,
        }
    }
}

/// Find the first activation entry named `name`.
pub fn find_score(acts: &Vec<(String, i64)>, name: &String) -> (r: Option<i64>)
    ensures
        r == first_score(acts@, name@),
{
    let mut k: usize = 0;
    proof {
        assert(acts@.skip(0) =~= acts@);
    }
    while k < acts.len()
        invariant
            k <= acts@.len(),
            first_score(acts@, name@) == first_score(acts@.skip(k as int), name@),
        decreases acts@.len() - k,
    {
        proof {
            assert(acts@.skip(k as int)[0] == acts@[k as int]);
            assert(acts@.skip(k as int).skip(1) =~= acts@.skip(k as int + 1));
        }
        if acts[k].0 == *name {
            return Some(acts[k].1);
        }
        k = k + 1;
    }
    None
}

impl MatchStage {
    /// Evaluate this stage against one activation set at time `now_ms`.
    pub fn eval(&self, started_ms: Option<u64>, now_ms: u64, acts: &Vec<(String, i64)>) -> (r:
        StageResult)
        requires
            match started_ms {
                Some(t0) => t0 <= now_ms,
                None => true,
            },
        ensures
            r == stage_eval_spec(self@, started_ms, now_ms, acts@),
    {
        if let Some(score) = find_score(acts, &self.model) {
            if score >= self.activation_threshold {
                return StageResult::Matched;
            }
        }
        if let Some(started) = started_ms {
            if now_ms - started > self.timeout_ms {
                return StageResult::Timeout;
            }
        }
        StageResult::Noop
    }
}

/// A rule's runtime state: its chain, its action string, and the armed
/// stage with the time it was armed, if any.
pub struct MatchState {
    current_stage: Option<(usize, u64)>,
    stages: Vec<MatchStage>,
    action: String,
}

/// The mathematical content of a rule state.
pub struct MatchStateView {
    pub current_stage: Option<(usize, u64)>,
    pub stages: Seq<StageView>,
    pub action: Seq<char>,
}

impl View for MatchState {
    type V = MatchStateView;

    closed spec fn view(&self) -> MatchStateView {
        MatchStateView {
            current_stage: self.current_stage,
            stages: self.stages@.map_values(|s: MatchStage| s@),
            action: self.action@,
        }
    }
}

/// One transition of a rule: the new armed stage and whether the action
/// fires, exactly as the state diagram reads.
pub open spec fn rule_step(
    stages: Seq<StageView>,
    cur: Option<(usize, u64)>,
    now_ms: u64,
    acts: Seq<(String, i64)>,
) -> (Option<(usize, u64)>, bool) {
    match cur {
        Some((idx, started)) => {
            match stage_eval_spec(stages[idx as int], Some(started), now_ms, acts) {
                StageResult::Matched => {
                    if idx as int >= stages.len() - 1 {
                        (None::<(usize, u64)>, true)
                    } else {
                        (Some(((idx + 1) as usize, now_ms)), false)
                    }
                },
                StageResult::Timeout => (None::<(usize, u64)>, false),
                StageResult::Noop => (cur, false),
            }
        },
        None => {
            if stages.len() > 0 && stage_eval_spec(stages[0], None::<u64>, now_ms, acts)
                is Matched {
                if stages.len() >= 2 {
                    (Some((1usize, now_ms)), false)
                } else {
                    (None::<(usize, u64)>, true)
                }
            } else {
                (None::<(usize, u64)>, false)
            }
        },
    }
}

impl MatchState {
    pub closed spec fn wf(&self) -> bool {
        match self.current_stage {
            Some((i, _)) => 1 <= i && (i as int) < self.stages@.len(),
            None => true,
        }
    }

    pub closed spec fn time_ok(&self, now_ms: u64) -> bool {
        match self.current_stage {
            Some((_, t0)) => t0 <= now_ms,
            None => true,
        }
    }

    /// Advance this rule by one activation set; true means its action fires.
    pub fn eval(&mut self, now_ms: u64, acts: &Vec<(String, i64)>) -> (fired: bool)
        requires
            old(self).wf(),
            old(self).time_ok(now_ms),
        ensures
            final(self).wf(),
            final(self).time_ok(now_ms),
            final(self)@.stages == old(self)@.stages,
            final(self)@.action == old(self)@.action,
            (final(self)@.current_stage, fired) == rule_step(
                old(self)@.stages,
                old(self)@.current_stage,
                now_ms,
                acts@,
            ),
    {
        match self.current_stage {
            Some((idx, started)) => {
                let r = self.stages[idx].eval(Some(started), now_ms, acts);
                match r {
                    StageResult::Noop => false,
                    StageResult::Timeout => {
                        self.current_stage = None;
                        false
                    },
                    StageResult::Matched => {
                        if idx >= self.stages.len() - 1 {
                            self.current_stage = None;
                            true
                        } else {
                            self.current_stage = Some((idx + 1, now_ms));
                            false
                        }
                    },
                }
            },
            None => {
                if self.stages.len() > 0 {
                    let r = self.stages[0].eval(None, now_ms, acts);
                    match r {
                        StageResult::Matched => {
                            if self.stages.len() >= 2 {
                                self.current_stage = Some((1, now_ms));
                                false
                            } else {
                                true
                            }
                        },
                        _ => false,
                    }
                } else {
                    false
                }
            },
        }
    }
}

/// One rule as the matcher sees it: its name and its state.
pub struct RuleView {
    pub name: Seq<char>,
    pub state: MatchStateView,
}

/// The stage a chain entry of the configuration describes, defaults
/// applied: threshold one half, timeout 3200 ms.
pub open spec fn stage_of_config(c: MatchStageConfig) -> StageView {
    StageView {
        model: c.model@,
        activation_threshold: match c.activation_threshold {
            Some(t) => t,
            None => DEFAULT_THRESHOLD,
        },
        timeout_ms: match c.timeout_ms {
            Some(t) => t,
            None => DEFAULT_TIMEOUT_MS,
        },
    }
}

/// The rules fired by one evaluation pass, in rule order: each entry is the
/// rule's name with its decoded action.
pub open spec fn fired_actions(
    rules: Seq<RuleView>,
    now_ms: u64,
    acts: Seq<(String, i64)>,
) -> Seq<(Seq<char>, ActionView)>
    decreases rules.len(),
{
    if rules.len() == 0 {
        Seq::empty()
    } else {
        let fired = rule_step(rules[0].state.stages, rules[0].state.current_stage, now_ms, acts).1;
        let rest = fired_actions(rules.skip(1), now_ms, acts);
        if fired {
            seq![(rules[0].name, parse_action_spec(rules[0].state.action))] + rest
        } else {
            rest
        }
    }
}

proof fn lemma_fired_actions_append(a: Seq<RuleView>, b: Seq<RuleView>, now_ms: u64, acts: Seq<(String, i64)>)
    ensures
        fired_actions(a + b, now_ms, acts) == fired_actions(a, now_ms, acts) + fired_actions(
            b,
            now_ms,
            acts,
        ),
    decreases a.len(),
{
    if a.len() == 0 {
        assert(a + b =~= b);
        assert(fired_actions(a, now_ms, acts) + fired_actions(b, now_ms, acts) =~= fired_actions(
            b,
            now_ms,
            acts,
        ));
    } else {
        assert((a + b).skip(1) =~= a.skip(1) + b);
        lemma_fired_actions_append(a.skip(1), b, now_ms, acts);
        assert((a + b)[0] == a[0]);
        if rule_step((a + b)[0].state.stages, (a + b)[0].state.current_stage, now_ms, acts).1 {
            assert(fired_actions(a + b, now_ms, acts) =~= fired_actions(a, now_ms, acts)
                + fired_actions(b, now_ms, acts));
        } else {
            assert(fired_actions(a + b, now_ms, acts) =~= fired_actions(a, now_ms, acts)
                + fired_actions(b, now_ms, acts));
        }
    }
}

/// All rules, each with its own independent state, evaluated together.
pub struct Matcher {
    rules: Vec<(String, MatchState)>,
}

impl Matcher {
    /// The rules, in evaluation order.
    pub closed spec fn rules(&self) -> Seq<RuleView> {
        self.rules@.map_values(|p: (String, MatchState)| RuleView { name: p.0@, state: p.1@ })
    }

    pub closed spec fn wf(&self) -> bool {
        &&& forall|k: int| 0 <= k < self.rules@.len() ==> (#[trigger] self.rules@[k]).1.wf()
        &&& forall|i: int, j: int|
            0 <= i < j < self.rules@.len() ==> (#[trigger] self.rules@[i]).0@ != (
            #[trigger] self.rules@[j]).0@
    }

    /// Every armed clock is at or before `now_ms`.
    pub closed spec fn times_ok(&self, now_ms: u64) -> bool {
        forall|k: int| 0 <= k < self.rules@.len() ==> (#[trigger] self.rules@[k]).1.time_ok(now_ms)
    }

    /// An armed clock at or before an earlier time is at or before a later one.
    pub proof fn lemma_times_ok_monotone(&self, earlier: u64, later: u64)
        requires
            self.times_ok(earlier),
            earlier <= later,
        ensures
            self.times_ok(later),
    {
    }

    pub fn new() -> (r: Self)
        ensures
            r.wf(),
            r.rules() == Seq::<RuleView>::empty(),
            forall|t: u64| r.times_ok(t),
    {
        Matcher { rules: Vec::new() }
    }

    /// Install a rule: its chain becomes the stage list with defaults
    /// applied, disarmed; a rule already registered under the same name is
    /// replaced in place, otherwise the rule is appended.
    pub fn add_rule(&mut self, name: String, rule: MatchConfig)
        requires
            old(self).wf(),
        ensures
            final(self).wf(),
            forall|t: u64| old(self).times_ok(t) ==> final(self).times_ok(t),
            ({
                let new_state = MatchStateView {
                    current_stage: None::<(usize, u64)>,
                    stages: rule.chain@.map_values(|c: MatchStageConfig| stage_of_config(c)),
                    action: rule.action@,
                };
                if exists|i: int|
                    0 <= i < old(self).rules().len() && (#[trigger] old(self).rules()[i]).name
                        == name@ {
                    exists|i: int|
                        {
                            &&& 0 <= i < old(self).rules().len()
                            &&& (#[trigger] old(self).rules()[i]).name == name@
                            &&& final(self).rules() == old(self).rules().update(
                                i,
                                RuleView { name: old(self).rules()[i].name, state: new_state },
                            )
                        }
                } else {
                    final(self).rules() == old(self).rules().push(
                        RuleView { name: name@, state: new_state },
                    )
                }
            }),
    {
        let mut stages: Vec<MatchStage> = Vec::new();
        let mut chain = rule.chain;
        let ghost chain_full = chain@;
        while chain.len() > 0
            invariant
                stages@.len() + chain@.len() == chain_full.len(),
                chain@ =~= chain_full.skip(stages@.len() as int),
                forall|j: int|
                    0 <= j < stages@.len() ==> (#[trigger] stages@[j])@ == stage_of_config(
                        chain_full[j],
                    ),
            decreases chain@.len(),
        {
            let c = chain.remove(0);
            let threshold = c.threshold_or_default();
            let timeout = c.timeout_or_default();
            stages.push(
                MatchStage { model: c.model, activation_threshold: threshold, timeout_ms: timeout },
            );
        }
        let state = MatchState { current_stage: None, stages, action: rule.action };
        proof {
            assert(state@.stages =~= chain_full.map_values(|c: MatchStageConfig| stage_of_config(c)));
        }

        let mut found: Option<usize> = None;
        let mut k: usize = 0;
        while k < self.rules.len()
            invariant
                k <= self.rules@.len(),
                *self == *old(self),
                match found {
                    Some(i) => i < k && self.rules@[i as int].0@ == name@,
                    None => forall|j: int|
                        0 <= j < k as int ==> (#[trigger] self.rules@[j]).0@ != name@,
                },
            decreases self.rules@.len() - k,
        {
            if found.is_none() && self.rules[k].0 == name {
                found = Some(k);
            }
            k = k + 1;
        }
        match found {
            Some(i) => {
                let (kept_name, _) = self.rules.remove(i);
                self.rules.insert(i, (kept_name, state));
                proof {
                    assert(self.rules() =~= old(self).rules().update(
                        i as int,
                        RuleView { name: old(self).rules()[i as int].name, state: state@ },
                    ));
                }
            },
            None => {
                self.rules.push((name, state));
                proof {
                    assert(self.rules() =~= old(self).rules().push(
                        RuleView { name: self.rules@.last().0@, state: state@ },
                    ));
                }
            },
        }
    }

    /// Advance every rule by one activation set at time `now_ms`; the
    /// returned list holds, in rule order, the name and decoded action of
    /// each rule that fired.
    pub fn eval(&mut self, now_ms: u64, acts: &Vec<(String, i64)>) -> (out: Vec<(String, Action)>)
        requires
            old(self).wf(),
            old(self).times_ok(now_ms),
        ensures
            final(self).wf(),
            final(self).times_ok(now_ms),
            final(self).rules().len() == old(self).rules().len(),
            forall|k: int|
                0 <= k < old(self).rules().len() ==> {
                    let prior = #[trigger] old(self).rules()[k];
                    let after = final(self).rules()[k];
                    &&& after.name == prior.name
                    &&& after.state.stages == prior.state.stages
                    &&& after.state.action == prior.state.action
                    &&& after.state.current_stage == rule_step(
                        prior.state.stages,
                        prior.state.current_stage,
                        now_ms,
                        acts@,
                    ).0
                },
            ({
                let fires = fired_actions(old(self).rules(), now_ms, acts@);
                &&& out@.len() == fires.len()
                &&& forall|j: int|
                    0 <= j < out@.len() ==> (#[trigger] out@[j]).0@ == fires[j].0 && out@[j].1@
                        == fires[j].1
            }),
    {
        let mut out: Vec<(String, Action)> = Vec::new();
        let mut k: usize = 0;
        while k < self.rules.len()
            invariant
                k <= self.rules@.len(),
                self.rules@.len() == old(self).rules@.len(),
                forall|i: int| k as int <= i < self.rules@.len() ==> self.rules@[i]
                    == #[trigger] old(self).rules@[i],
                forall|i: int|
                    0 <= i < k as int ==> {
                        let pair = #[trigger] self.rules@[i];
                        &&& pair.0 == old(self).rules@[i].0
                        &&& pair.1.wf()
                        &&& pair.1.time_ok(now_ms)
                        &&& pair.1@.stages == old(self).rules@[i].1@.stages
                        &&& pair.1@.action == old(self).rules@[i].1@.action
                        &&& pair.1@.current_stage == rule_step(
                            old(self).rules@[i].1@.stages,
                            old(self).rules@[i].1@.current_stage,
                            now_ms,
                            acts@,
                        ).0
                    },
                old(self).wf(),
                old(self).times_ok(now_ms),
                ({
                    let fires = fired_actions(old(self).rules().take(k as int), now_ms, acts@);
                    &&& out@.len() == fires.len()
                    &&& forall|j: int|
                        0 <= j < out@.len() ==> (#[trigger] out@[j]).0@ == fires[j].0 && out@[j].1@
                            == fires[j].1
                }),
            decreases self.rules@.len() - k,
        {
            let ghost rules_before = self.rules@;
            proof {
                assert(old(self).rules@[k as int].1.wf());
                assert(old(self).rules@[k as int].1.time_ok(now_ms));
                assert(old(self).rules()[k as int].state == old(self).rules@[k as int].1@);
                assert(old(self).rules()[k as int].name == old(self).rules@[k as int].0@);
            }
            let (rule_name, mut st) = self.rules.remove(k);
            let fired = st.eval(now_ms, acts);
            if fired {
                let act = parse_action(st.action.as_str());
                out.push((rule_name.clone(), act));
            }
            self.rules.insert(k, (rule_name, st));
            proof {
                assert(self.rules@ =~= rules_before.update(
                    k as int,
                    (rule_name, st),
                ));
                let prior_rules = old(self).rules();
                let prior = prior_rules[k as int];
                let single = prior_rules.subrange(k as int, k as int + 1);
                lemma_fired_actions_append(prior_rules.take(k as int), single, now_ms, acts@);
                assert(prior_rules.take(k as int) + single =~= prior_rules.take(k as int + 1));
                assert(single.skip(1) =~= Seq::<RuleView>::empty());
                assert(single[0] == prior);
                let step = rule_step(
                    prior.state.stages,
                    prior.state.current_stage,
                    now_ms,
                    acts@,
                );
                assert(fired == step.1);
                assert(single.skip(1) == Seq::<RuleView>::empty());
                assert(fired_actions(single.skip(1), now_ms, acts@)
                    == Seq::<(Seq<char>, ActionView)>::empty());
                assert(fired_actions(single, now_ms, acts@) == if step.1 {
                    seq![(single[0].name, parse_action_spec(single[0].state.action))]
                        + fired_actions(single.skip(1), now_ms, acts@)
                } else {
                    fired_actions(single.skip(1), now_ms, acts@)
                });
                assert(fired_actions(single, now_ms, acts@) =~= if fired {
                    seq![(prior.name, parse_action_spec(prior.state.action))]
                } else {
                    Seq::<(Seq<char>, ActionView)>::empty()
                });
                assert(self.rules()[k as int].state == st@);
                assert(self.rules()[k as int].name == rule_name@);
            }
            k = k + 1;
        }
        proof {
            assert(old(self).rules().take(old(self).rules().len() as int) =~= old(self).rules());
            assert forall|i: int|
                0 <= i < old(self).rules().len() implies {
                let prior = #[trigger] old(self).rules()[i];
                let after = self.rules()[i];
                &&& after.name == prior.name
                &&& after.state.stages == prior.state.stages
                &&& after.state.action == prior.state.action
                &&& after.state.current_stage == rule_step(
                    prior.state.stages,
                    prior.state.current_stage,
                    now_ms,
                    acts@,
                ).0
            } by {
                assert(old(self).rules()[i].state == old(self).rules@[i].1@);
                assert(old(self).rules()[i].name == old(self).rules@[i].0@);
                assert(self.rules()[i].state == self.rules@[i].1@);
                assert(self.rules()[i].name == self.rules@[i].0@);
            }
        }
        out
    }
}

/// Timeout law: a two-stage chain armed at its second stage at time `t0`,
/// whose second stage never matches, never fires; it disarms exactly when
/// evaluated strictly later than `t0` plus the stage's timeout.
pub proof fn lemma_matcher_timeout(
    stages: Seq<StageView>,
    t0: u64,
    now_ms: u64,
    acts: Seq<(String, i64)>,
)
    requires
        stages.len() == 2,
        !stage_matched(stages[1], acts),
    ensures
        !rule_step(stages, Some((1usize, t0)), now_ms, acts).1,
        rule_step(stages, Some((1usize, t0)), now_ms, acts).0 is None <==> now_ms as int
            - t0 as int > stages[1].timeout_ms as int,
{
}

/// Single-stage fast path: a disarmed chain of length one fires its action
/// on the very evaluation in which its sole stage matches, and stays
/// disarmed.
pub proof fn lemma_matcher_single_stage(stages: Seq<StageView>, now_ms: u64, acts: Seq<(String, i64)>)
    requires
        stages.len() == 1,
        stage_matched(stages[0], acts),
    ensures
        rule_step(stages, None::<(usize, u64)>, now_ms, acts) == (None::<(usize, u64)>, true),
{
}

} // verus!
