use smplcache::law::law_enforcement::trace::{LayeredTrace, StepTrace};

#[test]
fn step_trace_keeps_its_records_in_order() {
    let t = StepTrace::new(vec![1, 2, 3]);
    assert_eq!(t.steps(), &[1, 2, 3]);
    assert_eq!(t.clone().into_steps(), vec![1, 2, 3]);
}

#[test]
fn layered_trace_keeps_its_layers_in_order() {
    let t = LayeredTrace::new(vec!["parse", "check"]);
    assert_eq!(t.layers(), &["parse", "check"]);
    assert_eq!(t.into_layers(), vec!["parse", "check"]);
}
