use smplcache::law::law_enforcement::law_checker::{
    all_laws_hold, check_all_laws, failed_report_names, failing_laws, reports_all_pass, ErasedLawCheck, LawCheck,
    LawCheckReport,
};

// Subject: a simple pair of i64s
struct Pair(i64, i64);

// Law: sum is positive
struct SumPositive;
impl LawCheck<Pair> for SumPositive {
    type Witness = ();
    type Violation = ();
    fn law_name(&self) -> &'static str {
        "sum_positive"
    }
    fn holds(&self, s: &Pair) -> bool {
        s.0 + s.1 > 0
    }
    fn name(&self) -> &'static str {
        "sum_positive"
    }
    fn check(&self, s: &Pair) -> Result<(), ()> {
        if s.0 + s.1 > 0 {
            Ok(())
        } else {
            Err(())
        }
    }
}

// Law: product is non-negative
struct ProductNonNeg;
impl LawCheck<Pair> for ProductNonNeg {
    type Witness = ();
    type Violation = ();
    fn law_name(&self) -> &'static str {
        "product_non_negative"
    }
    fn holds(&self, s: &Pair) -> bool {
        s.0 * s.1 >= 0
    }
    fn name(&self) -> &'static str {
        "product_non_negative"
    }
    fn check(&self, s: &Pair) -> Result<(), ()> {
        if s.0 * s.1 >= 0 {
            Ok(())
        } else {
            Err(())
        }
    }
}

// Law: always fails
struct AlwaysFails;
impl LawCheck<Pair> for AlwaysFails {
    type Witness = ();
    type Violation = ();
    fn law_name(&self) -> &'static str {
        "always_fails"
    }
    fn holds(&self, _s: &Pair) -> bool {
        false
    }
    fn name(&self) -> &'static str {
        "always_fails"
    }
    fn check(&self, _s: &Pair) -> Result<(), ()> {
        Err(())
    }
}

#[test]
fn check_all_laws_all_pass() {
    let subject = Pair(3, 5);
    let laws: Vec<&dyn ErasedLawCheck<Pair>> = vec![&SumPositive, &ProductNonNeg];
    let reports = check_all_laws(&subject, &laws);
    assert_eq!(reports.len(), 2);
    assert!(reports.iter().all(|r| r.passed));
}

#[test]
fn check_all_laws_mixed_results() {
    let subject = Pair(3, -5);
    let laws: Vec<&dyn ErasedLawCheck<Pair>> = vec![&SumPositive, &ProductNonNeg];
    let reports = check_all_laws(&subject, &laws);
    assert!(!reports[0].passed);
    assert!(!reports[1].passed);
}

#[test]
fn all_laws_hold_returns_false_when_any_fails() {
    let subject = Pair(3, 5);
    let laws: Vec<&dyn ErasedLawCheck<Pair>> = vec![&SumPositive, &AlwaysFails];
    assert!(!all_laws_hold(&subject, &laws));
}

#[test]
fn all_laws_hold_returns_true_when_all_pass() {
    let subject = Pair(3, 5);
    let laws: Vec<&dyn ErasedLawCheck<Pair>> = vec![&SumPositive, &ProductNonNeg];
    assert!(all_laws_hold(&subject, &laws));
}

#[test]
fn failing_laws_returns_only_failures() {
    let subject = Pair(3, 5);
    let laws: Vec<&dyn ErasedLawCheck<Pair>> = vec![&SumPositive, &AlwaysFails, &ProductNonNeg];
    let failures = failing_laws(&subject, &laws);
    assert_eq!(failures, vec!["always_fails"]);
}

#[test]
fn failing_laws_returns_empty_when_all_pass() {
    let subject = Pair(3, 5);
    let laws: Vec<&dyn ErasedLawCheck<Pair>> = vec![&SumPositive, &ProductNonNeg];
    let failures = failing_laws(&subject, &laws);
    assert!(failures.is_empty());
}

#[test]
fn reports_name_their_laws_and_pass_exactly_when_no_failure_is_named() {
    let subject = Pair(3, -5);
    let laws: Vec<&dyn ErasedLawCheck<Pair>> = vec![&SumPositive, &AlwaysFails, &ProductNonNeg];
    let reports = check_all_laws(&subject, &laws);
    let names: Vec<&str> = reports.iter().map(|r| r.law).collect();
    assert_eq!(names, vec!["sum_positive", "always_fails", "product_non_negative"]);
    assert!(!reports_all_pass(&reports));
    assert_eq!(failed_report_names(&reports), vec!["sum_positive", "always_fails", "product_non_negative"]);

    let passing = check_all_laws(&Pair(1, 1), &[&SumPositive as &dyn ErasedLawCheck<Pair>, &ProductNonNeg]);
    assert!(reports_all_pass(&passing));
    assert!(failed_report_names(&passing).is_empty());
    assert!(reports_all_pass(&[]));
    assert!(all_laws_hold(&Pair(0, 0), &[]));
}

#[test]
fn a_report_passes_exactly_when_its_check_gave_a_witness() {
    let ok = LawCheckReport::new("w", Ok(Box::new(1u8)));
    let bad = LawCheckReport::new("v", Err(Box::new(2u8)));
    assert!(ok.passed && ok.evidence.is_ok());
    assert!(!bad.passed && bad.evidence.is_err());
    assert_eq!(failed_report_names(&[ok, bad]), vec!["v"]);
}

#[test]
fn no_failing_law_exactly_when_all_hold() {
    for subject in [Pair(3, 5), Pair(3, -5), Pair(-3, -5)] {
        let laws: Vec<&dyn ErasedLawCheck<Pair>> = vec![&SumPositive, &ProductNonNeg];
        assert_eq!(failing_laws(&subject, &laws).is_empty(), all_laws_hold(&subject, &laws));
    }
    let laws: Vec<&dyn ErasedLawCheck<Pair>> = vec![&SumPositive, &ProductNonNeg];
    assert_eq!(failing_laws(&Pair(-3, -5), &laws), vec!["sum_positive"]);
    let reports = check_all_laws(&Pair(3, 5), &laws);
    assert_eq!(reports[0].law, "sum_positive");
    assert_eq!(reports[1].law, "product_non_negative");
}
