//! Rules, batches of rules, and the executor that runs batches until a fixed
//! point or an iteration cap, checking the plan after every rule.

use vstd::prelude::*;
use crate::errors::CatalystError;
use crate::trees::{Tree, TreeNode};

verus! {

/// How many passes a batch may make over its rules.
#[derive(Debug)]
pub enum Strategy {
    /// A single pass.
    Once,
    /// At most the given number of passes, fewer when a pass changes nothing.
    FixedPoint(u16),
}

impl Strategy {
    /// The iteration cap of this strategy.
    pub open spec fn iterations(self) -> nat {
        match self {
            Strategy::Once => 1,
            Strategy::FixedPoint(n) => n as nat,
        }
    }

    /// The iteration cap: one for `Once`, `n` for `FixedPoint(n)`.
    pub fn num_iterations(&self) -> (r: u16)
        ensures
            r == self.iterations(),
    {
        match self {
            Strategy::Once => 1,
            Strategy::FixedPoint(n) => *n,
        }
    }
}

/// A named rewrite of plans of type `P`: a total function from a plan to an
/// optional replacement, `None` meaning that the rule does not apply.
pub trait Rule<P: TreeNode> {
    /// The name of the rule; empty unless an implementation says otherwise.
    open spec fn rule_name(&self) -> Seq<char> {
        Seq::empty()
    }

    /// The replacement that the rule gives for a plan of the given model;
    /// none unless an implementation says otherwise.
    open spec fn rewrite(&self, plan: Tree) -> Option<Tree> {
        None
    }

    /// The name of the rule.
    fn name(&self) -> (r: String)
        ensures
            r@ == self.rule_name(),
    ;

    /// The replacement for `plan`, or `None` when the rule does not apply.
    fn apply(&self, plan: &P) -> (r: Option<P>)
        ensures
            match r {
                Some(p) => self.rewrite(plan.tree_model()) == Some(p.tree_model()),
                None => self.rewrite(plan.tree_model()) is None,
            },
    ;
}

/// The structural integrity check that every rewritten plan must pass.
pub trait PlanCheck<P: TreeNode> {
    /// Whether a plan of the given model is well formed; every plan is
    /// unless an implementation says otherwise.
    open spec fn integral(&self, plan: Tree) -> bool {
        true
    }

    /// Returns `false` iff `plan` is not well formed.
    fn is_plan_integral(&self, plan: &P) -> (r: bool)
        ensures
            r == self.integral(plan.tree_model()),
    ;
}

/// A named, ordered group of rules sharing one strategy.
pub struct Batch<R> {
    pub name: String,
    pub strategy: Strategy,
    pub rules: Vec<R>,
}

impl<R> Batch<R> {
    /// Creates a batch; its rules run in the given order.
    pub fn new(name: String, strategy: Strategy, rules: Vec<R>) -> (r: Batch<R>)
        ensures
            r.name == name,
            r.strategy == strategy,
            r.rules == rules,
    {
        Batch { name, strategy, rules }
    }

    /// The name of the batch.
    pub fn name(&self) -> (r: &String)
        ensures
            r == self.name,
    {
        &self.name
    }

    /// The strategy of the batch.
    pub fn strategy(&self) -> (r: &Strategy)
        ensures
            r == self.strategy,
    {
        &self.strategy
    }

    /// The rules of the batch, in order.
    pub fn rules(&self) -> (r: &Vec<R>)
        ensures
            r == self.rules,
    {
        &self.rules
    }
}

/// The plan after `rule` is applied: its replacement, or the plan unchanged.
pub open spec fn applied<P: TreeNode, R: Rule<P>>(rule: R, t: Tree) -> Tree {
    match rule.rewrite(t) {
        Some(u) => u,
        None => t,
    }
}

/// The outcome of applying the first `k` rules of `rules` in order, starting
/// from `t`: the plan, or the index of the first rule after which the plan
/// failed the check.
pub open spec fn pass_prefix<P: TreeNode, R: Rule<P>, C: PlanCheck<P>>(
    rules: Seq<R>,
    check: C,
    t: Tree,
    k: int,
) -> Result<Tree, int>
    decreases k,
{
    if k <= 0 {
        Ok(t)
    } else {
        match pass_prefix::<P, R, C>(rules, check, t, k - 1) {
            Err(e) => Err(e),
            Ok(u) => {
                let v = applied::<P, R>(rules[k - 1], u);
                if check.integral(v) {
                    Ok(v)
                } else {
                    Err(k - 1)
                }
            },
        }
    }
}

/// The outcome of one pass of all `rules` over `t`.
pub open spec fn pass<P: TreeNode, R: Rule<P>, C: PlanCheck<P>>(
    rules: Seq<R>,
    check: C,
    t: Tree,
) -> Result<Tree, int> {
    pass_prefix::<P, R, C>(rules, check, t, rules.len() as int)
}

/// The outcome of a batch run from `t` after `done` passes: passes go on
/// until one leaves the plan unchanged or the number of passes reaches `cap`
/// (at least one pass is always made).
pub open spec fn batch_from<P: TreeNode, R: Rule<P>, C: PlanCheck<P>>(
    rules: Seq<R>,
    check: C,
    cap: nat,
    done: nat,
    t: Tree,
) -> Result<Tree, int>
    decreases cap - done,
{
    match pass::<P, R, C>(rules, check, t) {
        Err(e) => Err(e),
        Ok(u) => if done + 1 >= cap || u == t {
            Ok(u)
        } else {
            batch_from::<P, R, C>(rules, check, cap, done + 1, u)
        },
    }
}

/// The outcome of running `batches[b..]` in order from `t`: the final plan,
/// or the batch index and rule index of the first integrity failure.
pub open spec fn run_from<P: TreeNode, R: Rule<P>, C: PlanCheck<P>>(
    batches: Seq<Batch<R>>,
    check: C,
    b: int,
    t: Tree,
) -> Result<Tree, (int, int)>
    decreases batches.len() - b,
{
    if b < 0 || b >= batches.len() {
        Ok(t)
    } else {
        match batch_from::<P, R, C>(
            batches[b].rules@,
            check,
            batches[b].strategy.iterations(),
            0,
            t,
        ) {
            Err(k) => Err((b, k)),
            Ok(u) => run_from::<P, R, C>(batches, check, b + 1, u),
        }
    }
}

/// Once a pass has failed, applying more of its rules keeps the failure.
proof fn lemma_pass_failure_sticks<P: TreeNode, R: Rule<P>, C: PlanCheck<P>>(
    rules: Seq<R>,
    check: C,
    t: Tree,
    j: int,
    k: int,
)
    requires
        0 <= j <= k,
        pass_prefix::<P, R, C>(rules, check, t, j) is Err,
    ensures
        pass_prefix::<P, R, C>(rules, check, t, k) == pass_prefix::<P, R, C>(rules, check, t, j),
    decreases k - j,
{
    if j < k {
        lemma_pass_failure_sticks::<P, R, C>(rules, check, t, j, k - 1);
    }
}

/// A batch under `Once` makes exactly one pass over its rules, whatever the
/// pass changed.
pub proof fn lemma_once_is_one_pass<P: TreeNode, R: Rule<P>, C: PlanCheck<P>>(
    rules: Seq<R>,
    check: C,
    t: Tree,
)
    ensures
        batch_from::<P, R, C>(rules, check, Strategy::Once.iterations(), 0, t) == pass::<
            P,
            R,
            C,
        >(rules, check, t),
{
}

/// A batch that reaches a plan on which a pass changes nothing stops there,
/// with that plan, whatever passes its cap still allows.
pub proof fn lemma_fixed_point_stops<P: TreeNode, R: Rule<P>, C: PlanCheck<P>>(
    rules: Seq<R>,
    check: C,
    cap: nat,
    done: nat,
    t: Tree,
)
    requires
        pass::<P, R, C>(rules, check, t) == Ok::<Tree, int>(t),
    ensures
        batch_from::<P, R, C>(rules, check, cap, done, t) == Ok::<Tree, int>(t),
{
}

/// A batch whose pass left a plan that is not yet a fixed point makes another
/// pass when its cap allows one.
pub proof fn lemma_change_continues<P: TreeNode, R: Rule<P>, C: PlanCheck<P>>(
    rules: Seq<R>,
    check: C,
    cap: nat,
    done: nat,
    t: Tree,
    u: Tree,
)
    requires
        pass::<P, R, C>(rules, check, t) == Ok::<Tree, int>(u),
        u != t,
        done + 1 < cap,
    ensures
        batch_from::<P, R, C>(rules, check, cap, done, t) == batch_from::<P, R, C>(
            rules,
            check,
            cap,
            done + 1,
            u,
        ),
{
}

/// When the plan fails the check after rule `k` of batch `b`, the run ends
/// with that rule and that batch, and the batches after `b` do not matter:
/// appending any batches gives the same outcome.
pub proof fn lemma_failure_ends_run<P: TreeNode, R: Rule<P>, C: PlanCheck<P>>(
    batches: Seq<Batch<R>>,
    more: Seq<Batch<R>>,
    check: C,
    b: int,
    k: int,
    t: Tree,
)
    requires
        0 <= b < batches.len(),
        batch_from::<P, R, C>(
            batches[b].rules@,
            check,
            batches[b].strategy.iterations(),
            0,
            t,
        ) == Err::<Tree, int>(k),
    ensures
        run_from::<P, R, C>(batches, check, b, t) == Err::<Tree, (int, int)>((b, k)),
        run_from::<P, R, C>(batches + more, check, b, t) == Err::<Tree, (int, int)>((b, k)),
{
    assert((batches + more)[b] == batches[b]);
}

/// What a run reports about a batch, for logging. Reports never change the
/// course of a run.
#[derive(Debug)]
pub enum BatchEvent {
    /// The batch made as many passes as its cap allows; reported only for
    /// caps above one.
    CapReached { batch: String, iterations: u32 },
    /// A pass left the plan as the previous pass left it.
    FixedPoint { batch: String, iterations: u32 },
    /// The batch is done; `changed` tells whether the plan now differs from
    /// the plan the batch started with.
    Finished { batch: String, changed: bool },
}

/// Receives the reports of a run.
pub trait Observer {
    /// Called once for each report, in the order the run makes them.
    fn observe(&mut self, event: BatchEvent);
}

/// An observer that ignores every report.
pub struct Quiet;

impl Observer for Quiet {
    fn observe(&mut self, _event: BatchEvent) {
    }
}

/// Runs batches of rules over a plan, checking the plan after every rule.
pub struct RuleExecutor<R, C> {
    pub batches: Vec<Batch<R>>,
    pub check: C,
}

impl<R, C> RuleExecutor<R, C> {
    /// Creates an executor for the given batches, run in order, and the given
    /// integrity check.
    pub fn new(batches: Vec<Batch<R>>, check: C) -> (r: RuleExecutor<R, C>)
        ensures
            r.batches == batches,
            r.check == check,
    {
        RuleExecutor { batches, check }
    }

    /// Runs every batch in order over a copy of `plan`. Within a pass the rules
    /// run in order, each on the output of the one before, and the plan is
    /// checked after each of them; the first failed check ends the whole run
    /// with the error that names that rule and its batch. A batch makes passes
    /// until one leaves the plan unchanged or its strategy's cap is reached.
    pub fn execute<P: TreeNode>(&self, plan: &P) -> (r: Result<P, CatalystError>) where
        R: Rule<P>,
        C: PlanCheck<P>,

        ensures
            match r {
                Ok(p) => run_from::<P, R, C>(self.batches@, self.check, 0, plan.tree_model()) == Ok::<
                    Tree,
                    (int, int),
                >(p.tree_model()),
                Err(e) => exists|b: int, k: int|
                    {
                        &&& 0 <= b < self.batches@.len()
                        &&& 0 <= k < self.batches@[b].rules@.len()
                        &&& run_from::<P, R, C>(self.batches@, self.check, 0, plan.tree_model())
                            == Err::<Tree, (int, int)>((b, k))
                        &&& e.is_integrity(
                            self.batches@[b].rules@[k].rule_name(),
                            self.batches@[b].name@,
                        )
                    },
            },
    {
        let mut quiet = Quiet;
        self.execute_observed(plan, &mut quiet)
    }

    /// As `execute`, and reports to `observer` when a batch reaches its cap
    /// (above one), when a pass reaches a fixed point, and when a batch is
    /// done, telling whether it changed the plan.
    pub fn execute_observed<P: TreeNode, O: Observer>(&self, plan: &P, observer: &mut O) -> (r: Result<
        P,
        CatalystError,
    >) where
        R: Rule<P>,
        C: PlanCheck<P>,

        ensures
            match r {
                Ok(p) => run_from::<P, R, C>(self.batches@, self.check, 0, plan.tree_model()) == Ok::<
                    Tree,
                    (int, int),
                >(p.tree_model()),
                Err(e) => exists|b: int, k: int|
                    {
                        &&& 0 <= b < self.batches@.len()
                        &&& 0 <= k < self.batches@[b].rules@.len()
                        &&& run_from::<P, R, C>(self.batches@, self.check, 0, plan.tree_model())
                            == Err::<Tree, (int, int)>((b, k))
                        &&& e.is_integrity(
                            self.batches@[b].rules@[k].rule_name(),
                            self.batches@[b].name@,
                        )
                    },
            },
    {
        let mut current = plan.clone_tree();
        let nb = self.batches.len();
        let mut b: usize = 0;
        while b < nb
            invariant
                nb == self.batches.len(),
                0 <= b <= nb,
                run_from::<P, R, C>(self.batches@, self.check, 0, plan.tree_model())
                    == run_from::<P, R, C>(self.batches@, self.check, b as int, current.tree_model()),
            decreases nb - b,
        {
            let batch = &self.batches[b];
            let cap = batch.strategy.num_iterations();
            let nr = batch.rules.len();
            let ghost start = current.tree_model();
            let mut iteration: u32 = 1;
            let mut last = current.clone_tree();
            let batch_start = current.clone_tree();
            let mut going = true;
            while going
                invariant
                    nb == self.batches.len(),
                    0 <= b < nb,
                    *batch == self.batches@[b as int],
                    cap == batch.strategy.iterations(),
                    nr == batch.rules.len(),
                    1 <= iteration <= cap + 2,
                    going ==> iteration <= cap + 1,
                    going ==> last.tree_model() == current.tree_model(),
                    going ==> batch_from::<P, R, C>(batch.rules@, self.check, cap as nat, 0, start)
                        == batch_from::<P, R, C>(
                        batch.rules@,
                        self.check,
                        cap as nat,
                        (iteration - 1) as nat,
                        current.tree_model(),
                    ),
                    !going ==> batch_from::<P, R, C>(batch.rules@, self.check, cap as nat, 0, start)
                        == Ok::<Tree, int>(current.tree_model()),
                    run_from::<P, R, C>(self.batches@, self.check, 0, plan.tree_model())
                        == run_from::<P, R, C>(self.batches@, self.check, b as int, start),
                decreases cap + 2 - iteration,
            {
                let ghost before = current.tree_model();
                let mut k: usize = 0;
                while k < nr
                    invariant
                        nb == self.batches.len(),
                        0 <= b < nb,
                        *batch == self.batches@[b as int],
                        nr == batch.rules.len(),
                        0 <= k <= nr,
                        pass_prefix::<P, R, C>(batch.rules@, self.check, before, k as int) == Ok::<
                            Tree,
                            int,
                        >(current.tree_model()),
                        cap == batch.strategy.iterations(),
                        1 <= iteration <= cap + 1,
                        batch_from::<P, R, C>(batch.rules@, self.check, cap as nat, 0, start)
                            == batch_from::<P, R, C>(
                            batch.rules@,
                            self.check,
                            cap as nat,
                            (iteration - 1) as nat,
                            before,
                        ),
                        run_from::<P, R, C>(self.batches@, self.check, 0, plan.tree_model())
                            == run_from::<P, R, C>(self.batches@, self.check, b as int, start),
                    decreases nr - k,
                {
                    let rule = &batch.rules[k];
                    let ghost prior = current.tree_model();
                    match rule.apply(&current) {
                        Some(updated) => {
                            current = updated;
                        },
                        None => {},
                    }
                    assert(current.tree_model() == applied::<P, R>(batch.rules@[k as int], prior));
                    if !self.check.is_plan_integral(&current) {
                        proof {
                            assert(pass_prefix::<P, R, C>(batch.rules@, self.check, before, k + 1)
                                == Err::<Tree, int>(k as int));
                            lemma_pass_failure_sticks::<P, R, C>(
                                batch.rules@,
                                self.check,
                                before,
                                k + 1,
                                nr as int,
                            );
                            assert(batch_from::<P, R, C>(
                                batch.rules@,
                                self.check,
                                cap as nat,
                                (iteration - 1) as nat,
                                before,
                            ) == Err::<Tree, int>(k as int));
                            assert(run_from::<P, R, C>(self.batches@, self.check, b as int, start)
                                == Err::<Tree, (int, int)>((b as int, k as int)));
                        }
                        let err = CatalystError::Integrity { rule: rule.name(), batch: batch.name.clone() };
                        assert(err.is_integrity(
                            self.batches@[b as int].rules@[k as int].rule_name(),
                            self.batches@[b as int].name@,
                        ));
                        return Err(err);
                    }
                    k += 1;
                }
                assert(batch.rules@.len() == nr);
                assert(pass::<P, R, C>(batch.rules@, self.check, before) == Ok::<Tree, int>(
                    current.tree_model(),
                ));
                iteration += 1;
                let cap_reached = iteration > cap as u32;
                let converged = current.equals(&last);
                if cap_reached && cap > 1 {
                    observer.observe(
                        BatchEvent::CapReached { batch: batch.name.clone(), iterations: iteration - 1 },
                    );
                }
                if converged {
                    observer.observe(
                        BatchEvent::FixedPoint { batch: batch.name.clone(), iterations: iteration - 1 },
                    );
                }
                if cap_reached || converged {
                    going = false;
                } else {
                    last = current.clone_tree();
                }
            }
            let changed = !current.equals(&batch_start);
            observer.observe(BatchEvent::Finished { batch: batch.name.clone(), changed });
            b += 1;
        }
        Ok(current)
    }
}

} // verus!
