use catalyst::rules::{Batch, BatchEvent, Observer, PlanCheck, Rule, RuleExecutor, Strategy};
use catalyst::{CatalystError, Node, TreeNode};

fn counter(value: u32) -> Node {
    Node::new(value.to_string(), vec![])
}

fn value_of(plan: &Node) -> u32 {
    plan.node_name().parse().unwrap()
}

/// Raises the counter by one until it reaches `ceiling`.
struct Increment {
    ceiling: u32,
}

impl Rule<Node> for Increment {
    fn name(&self) -> String {
        String::from("increment")
    }

    fn apply(&self, plan: &Node) -> Option<Node> {
        let v = value_of(plan);
        if v < self.ceiling { Some(counter(v + 1)) } else { None }
    }
}

/// Always accepts the plan.
struct AnyPlan;

impl PlanCheck<Node> for AnyPlan {
    fn is_plan_integral(&self, _plan: &Node) -> bool {
        true
    }
}

/// Accepts counters up to a limit.
struct AtMost {
    limit: u32,
}

impl PlanCheck<Node> for AtMost {
    fn is_plan_integral(&self, plan: &Node) -> bool {
        value_of(plan) <= self.limit
    }
}

#[test]
fn strategy_iterations() {
    assert_eq!(Strategy::Once.num_iterations(), 1);
    assert_eq!(Strategy::FixedPoint(10).num_iterations(), 10);
}

#[test]
fn fixed_point_converges_at_ceiling() {
    let batch = Batch::new(String::from("count"), Strategy::FixedPoint(10), vec![Increment { ceiling: 4 }]);
    let executor = RuleExecutor::new(vec![batch], AnyPlan);
    let res = executor.execute(&counter(0)).unwrap();
    assert_eq!(value_of(&res), 4);
}

#[test]
fn fixed_point_stops_at_cap() {
    let batch = Batch::new(String::from("count"), Strategy::FixedPoint(3), vec![Increment { ceiling: 100 }]);
    let executor = RuleExecutor::new(vec![batch], AnyPlan);
    let res = executor.execute(&counter(0)).unwrap();
    assert_eq!(value_of(&res), 3);
}

#[test]
fn once_makes_a_single_pass() {
    let rules = vec![Increment { ceiling: 100 }, Increment { ceiling: 100 }];
    let batch = Batch::new(String::from("twice"), Strategy::Once, rules);
    let executor = RuleExecutor::new(vec![batch], AnyPlan);
    let res = executor.execute(&counter(5)).unwrap();
    assert_eq!(value_of(&res), 7);
}

#[test]
fn batches_run_in_order() {
    let first = Batch::new(String::from("first"), Strategy::FixedPoint(10), vec![Increment { ceiling: 2 }]);
    let second = Batch::new(String::from("second"), Strategy::Once, vec![Increment { ceiling: 10 }]);
    let executor = RuleExecutor::new(vec![first, second], AnyPlan);
    let res = executor.execute(&counter(0)).unwrap();
    assert_eq!(value_of(&res), 3);
}

#[test]
fn integrity_failure_names_rule_and_batch() {
    let first = Batch::new(String::from("grow"), Strategy::FixedPoint(10), vec![Increment { ceiling: 10 }]);
    let second = Batch::new(String::from("never"), Strategy::Once, vec![Increment { ceiling: 10 }]);
    let executor = RuleExecutor::new(vec![first, second], AtMost { limit: 0 });
    let plan = counter(0);
    match executor.execute(&plan) {
        Err(CatalystError::Integrity { rule, batch }) => {
            assert_eq!(rule, "increment");
            assert_eq!(batch, "grow");
        }
        Ok(_) => panic!("expected an integrity error"),
    }
    assert_eq!(value_of(&plan), 0);
}

#[test]
fn integrity_error_message() {
    let e = CatalystError::Integrity { rule: String::from("r"), batch: String::from("b") };
    assert_eq!(e.message(), "After applying rule r in batch b, the structural integrity of the plan is broken");
}

#[test]
fn no_batches_returns_copy() {
    let executor: RuleExecutor<Increment, AnyPlan> = RuleExecutor::new(vec![], AnyPlan);
    let plan = Node::new(String::from("x"), vec![Node::new(String::from("y"), vec![])]);
    let res = executor.execute(&plan).unwrap();
    assert_eq!(res, plan);
}

/// Records every report.
struct Recorder {
    events: Vec<String>,
}

impl Observer for Recorder {
    fn observe(&mut self, event: BatchEvent) {
        let text = match event {
            BatchEvent::CapReached { batch, iterations } => format!("cap {} {}", batch, iterations),
            BatchEvent::FixedPoint { batch, iterations } => format!("fixed {} {}", batch, iterations),
            BatchEvent::Finished { batch, changed } => format!("done {} {}", batch, changed),
        };
        self.events.push(text);
    }
}

#[test]
fn observer_sees_fixed_point_and_cap() {
    let first = Batch::new(String::from("count"), Strategy::FixedPoint(10), vec![Increment { ceiling: 2 }]);
    let second = Batch::new(String::from("capped"), Strategy::FixedPoint(2), vec![Increment { ceiling: 100 }]);
    let third = Batch::new(String::from("idle"), Strategy::Once, vec![Increment { ceiling: 0 }]);
    let executor = RuleExecutor::new(vec![first, second, third], AnyPlan);
    let mut recorder = Recorder { events: Vec::new() };
    let res = executor.execute_observed(&counter(0), &mut recorder).unwrap();
    assert_eq!(value_of(&res), 4);
    assert_eq!(recorder.events, vec![
        "fixed count 3",
        "done count true",
        "cap capped 2",
        "done capped true",
        "fixed idle 1",
        "done idle false",
    ]);
}
