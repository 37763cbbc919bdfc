use py_spy::flame::FlameCounts;
use py_spy::stack_trace::{StackFrame, StackTrace};

fn trace(active: bool, names: &[&str]) -> StackTrace {
    StackTrace {
        thread_id: 1,
        active,
        owns_gil: active,
        frames: names
            .iter()
            .map(|n| StackFrame { name: n.to_string(), filename: "/srv/work.py".to_string(), short_filename: Some("work.py".to_string()), line: 7 })
            .collect(),
    }
}

fn pairs(counts: &FlameCounts) -> Vec<(String, u64)> {
    counts.stacks.clone()
}

#[test]
fn stack_seen_again_counts_one_more() {
    let mut counts = FlameCounts::new();
    assert!(counts.stacks.is_empty());
    assert_eq!(counts.count_of("a"), 0);
    counts.add("a".to_string());
    counts.add("b;c".to_string());
    counts.add("a".to_string());
    counts.add("".to_string());
    counts.add("a".to_string());
    assert_eq!(pairs(&counts), vec![("a".to_string(), 3), ("b;c".to_string(), 1), ("".to_string(), 1)]);
    assert_eq!(counts.count_of("a"), 3);
    assert_eq!(counts.count_of("b;c"), 1);
    assert_eq!(counts.count_of("b"), 0);
    assert_eq!(counts.lines(), vec!["a 3".to_string(), "b;c 1".to_string(), " 1".to_string()]);
}

#[test]
fn count_stays_at_the_most_that_fits() {
    let mut counts = FlameCounts { stacks: vec![("x".to_string(), u64::MAX - 1), ("x".to_string(), 5)] };
    counts.add("x".to_string());
    assert_eq!(counts.count_of("x"), u64::MAX);
    counts.add("x".to_string());
    assert_eq!(pairs(&counts), vec![("x".to_string(), u64::MAX), ("x".to_string(), 5)]);
    assert_eq!(counts.lines()[0], format!("x {}", u64::MAX));
}

#[test]
fn sample_counts_the_stacks_of_active_traces_only() {
    let mut counts = FlameCounts::new();
    counts.increment(&vec![trace(true, &["inner", "outer"]), trace(false, &["wait"]), trace(true, &["inner", "outer"]), trace(true, &[])]);
    assert_eq!(
        pairs(&counts),
        vec![("outer (work.py:7);inner (work.py:7)".to_string(), 2), ("".to_string(), 1)]
    );
    counts.increment(&vec![]);
    counts.increment(&vec![trace(false, &["idle"])]);
    assert_eq!(counts.stacks.len(), 2);
    counts.increment(&vec![trace(true, &["g"])]);
    assert_eq!(
        counts.lines(),
        vec!["outer (work.py:7);inner (work.py:7) 2".to_string(), " 1".to_string(), "g (work.py:7) 1".to_string()]
    );
}

#[test]
fn counts_stand_as_nine_to_one_where_the_samples_do() {
    let mut counts = FlameCounts::new();
    for k in 0..2000 {
        let name = if k % 10 == 9 { "g" } else { "f" };
        counts.increment(&vec![trace(true, &[name])]);
    }
    assert_eq!(counts.count_of("f (work.py:7)"), 1800);
    assert_eq!(counts.count_of("g (work.py:7)"), 200);
    assert_eq!(counts.lines(), vec!["f (work.py:7) 1800".to_string(), "g (work.py:7) 200".to_string()]);
}
