//! Runtime law checking: each law is a check over a subject that either
//! yields a witness or a violation.
use vstd::prelude::*;

verus! {

/// Any value kept as evidence of a check's outcome.
pub trait LawEvidence {}

impl<T> LawEvidence for T {}

/// A law over subjects of type `S`, implemented by users. A law is a
/// predicate with a fixed name: its check gives a witness exactly when the
/// law holds of the subject.
pub trait LawCheck<S> {
    type Witness;
    type Violation;

    /// The law's name.
    spec fn law_name(&self) -> &'static str;

    /// Whether the law holds of a subject.
    spec fn holds(&self, subject: &S) -> bool;

    fn name(&self) -> (r: &'static str)
        ensures
            r == self.law_name(),
    ;

    fn check(&self, subject: &S) -> (r: Result<Self::Witness, Self::Violation>)
        ensures
            r is Ok <==> self.holds(subject),
    ;
}

/// A law with its witness and violation types erased, so that laws of
/// different types can be checked together.
pub trait ErasedLawCheck<S> {
    /// The law's name.
    spec fn spec_name(&self) -> &'static str;

    /// Whether the law holds of a subject.
    spec fn passes(&self, subject: &S) -> bool;

    fn name(&self) -> (r: &'static str)
        ensures
            r == self.spec_name(),
    ;

    fn check_erased(&self, subject: &S) -> (r: Result<Box<dyn LawEvidence>, Box<dyn LawEvidence>>)
        ensures
            r is Ok <==> self.passes(subject),
    ;
}

impl<S, T: LawCheck<S>> ErasedLawCheck<S> for T where T::Witness: 'static, T::Violation: 'static {
    open spec fn spec_name(&self) -> &'static str {
        self.law_name()
    }

    open spec fn passes(&self, subject: &S) -> bool {
        self.holds(subject)
    }

    fn name(&self) -> (r: &'static str) {
        LawCheck::name(self)
    }

    fn check_erased(&self, subject: &S) -> (r: Result<Box<dyn LawEvidence>, Box<dyn LawEvidence>>) {
        match LawCheck::check(self, subject) {
            Ok(w) => Ok(Box::new(w)),
            Err(v) => Err(Box::new(v)),
        }
    }
}

/// The outcome of one law on one subject.
pub struct LawCheckReport {
    pub law: &'static str,
    pub passed: bool,
    pub evidence: Result<Box<dyn LawEvidence>, Box<dyn LawEvidence>>,
}

impl LawCheckReport {
    /// A report for a law and the outcome of its check: passed exactly when
    /// the check gave a witness.
    pub fn new(law: &'static str, evidence: Result<Box<dyn LawEvidence>, Box<dyn LawEvidence>>) -> (r: Self)
        ensures r.law == law, r.passed == evidence is Ok, r.evidence == evidence,
    {
        let passed = evidence.is_ok();
        LawCheckReport { law, passed, evidence }
    }
}

/// Whether every report of the list passed.
pub open spec fn all_pass(reports: Seq<LawCheckReport>) -> bool {
    forall|i: int| 0 <= i < reports.len() ==> (#[trigger] reports[i]).passed
}

/// The names of the failed reports, in order.
pub open spec fn failed_names(reports: Seq<LawCheckReport>) -> Seq<&'static str>
    decreases reports.len(),
{
    if reports.len() == 0 {
        Seq::empty()
    } else if reports.last().passed {
        failed_names(reports.drop_last())
    } else {
        failed_names(reports.drop_last()).push(reports.last().law)
    }
}

/// Check all laws against a subject and collect one report per law, in order:
/// report `i` carries law `i`'s name and the outcome of its one check.
pub fn check_all_laws<S>(subject: &S, laws: &[&dyn ErasedLawCheck<S>]) -> (r: Vec<LawCheckReport>)
    ensures
        r@.len() == laws@.len(),
        forall|i: int| 0 <= i < r@.len() ==> {
            &&& (#[trigger] r@[i]).passed == r@[i].evidence is Ok
            &&& r@[i].law == laws@[i].spec_name()
            &&& r@[i].passed == laws@[i].passes(subject)
        },
{
    let mut out: Vec<LawCheckReport> = Vec::new();
    let mut i: usize = 0;
    while i < laws.len()
        invariant
            i <= laws@.len(), out@.len() == i,
            forall|k: int| 0 <= k < i ==> {
                &&& (#[trigger] out@[k]).passed == out@[k].evidence is Ok
                &&& out@[k].law == laws@[k].spec_name()
                &&& out@[k].passed == laws@[k].passes(subject)
            },
        decreases laws.len() - i,
    {
        let law = laws[i];
        let result = law.check_erased(subject);
        out.push(LawCheckReport::new(law.name(), result));
        i += 1;
    }
    out
}

/// Whether every report passed.
pub fn reports_all_pass(reports: &[LawCheckReport]) -> (r: bool)
    ensures r == all_pass(reports@),
{
    let mut i: usize = 0;
    while i < reports.len()
        invariant i <= reports@.len(), forall|k: int| 0 <= k < i ==> (#[trigger] reports@[k]).passed,
        decreases reports.len() - i,
    {
        if !reports[i].passed {
            return false;
        }
        i += 1;
    }
    true
}

/// The names of the failed reports, in order.
pub fn failed_report_names(reports: &[LawCheckReport]) -> (r: Vec<&'static str>)
    ensures r@ == failed_names(reports@),
{
    let mut out: Vec<&'static str> = Vec::new();
    let mut i: usize = 0;
    while i < reports.len()
        invariant i <= reports@.len(), out@ == failed_names(reports@.subrange(0, i as int)),
        decreases reports.len() - i,
    {
        assert(reports@.subrange(0, i + 1).drop_last() =~= reports@.subrange(0, i as int));
        if !reports[i].passed {
            out.push(reports[i].law);
        }
        i += 1;
    }
    assert(reports@.subrange(0, reports@.len() as int) =~= reports@);
    out
}

/// Whether every law of the list holds of the subject.
pub open spec fn all_hold<S>(laws: Seq<&dyn ErasedLawCheck<S>>, subject: &S) -> bool {
    forall|i: int| 0 <= i < laws.len() ==> (#[trigger] laws[i]).passes(subject)
}

/// The names of the laws of the list that fail for the subject, in order.
pub open spec fn failing_names<S>(laws: Seq<&dyn ErasedLawCheck<S>>, subject: &S) -> Seq<&'static str>
    decreases laws.len(),
{
    if laws.len() == 0 {
        Seq::empty()
    } else if laws.last().passes(subject) {
        failing_names(laws.drop_last(), subject)
    } else {
        failing_names(laws.drop_last(), subject).push(laws.last().spec_name())
    }
}

/// Returns true only if every law in the batch passes; stops at the first
/// failure. An empty batch holds.
pub fn all_laws_hold<S>(subject: &S, laws: &[&dyn ErasedLawCheck<S>]) -> (r: bool)
    ensures
        r == all_hold(laws@, subject),
{
    let mut i: usize = 0;
    while i < laws.len()
        invariant
            i <= laws@.len(),
            forall|k: int| 0 <= k < i ==> (#[trigger] laws@[k]).passes(subject),
        decreases laws.len() - i,
    {
        if laws[i].check_erased(subject).is_err() {
            return false;
        }
        i += 1;
    }
    true
}

/// The names of all failing laws, in order. An empty batch has none.
pub fn failing_laws<S>(subject: &S, laws: &[&dyn ErasedLawCheck<S>]) -> (r: Vec<&'static str>)
    ensures
        r@ == failing_names(laws@, subject),
{
    let mut out: Vec<&'static str> = Vec::new();
    let mut i: usize = 0;
    while i < laws.len()
        invariant
            i <= laws@.len(),
            out@ == failing_names(laws@.subrange(0, i as int), subject),
        decreases laws.len() - i,
    {
        assert(laws@.subrange(0, i + 1).drop_last() =~= laws@.subrange(0, i as int));
        let law = laws[i];
        if law.check_erased(subject).is_err() {
            out.push(law.name());
        }
        i += 1;
    }
    assert(laws@.subrange(0, laws@.len() as int) =~= laws@);
    out
}

/// A batch of reports passes exactly when no report's law is named as
/// failed.
pub proof fn all_pass_iff_no_failures(reports: Seq<LawCheckReport>)
    ensures
        all_pass(reports) <==> failed_names(reports).len() == 0,
    decreases reports.len(),
{
    if reports.len() > 0 {
        let init = reports.drop_last();
        all_pass_iff_no_failures(init);
        if all_pass(reports) {
            assert forall|i: int| 0 <= i < init.len() implies (#[trigger] init[i]).passed by {
                assert(init[i] == reports[i]);
            }
            assert(reports[reports.len() - 1].passed);
        } else if failed_names(reports).len() == 0 {
            assert(reports.last().passed);
            assert(all_pass(init));
            assert forall|i: int| 0 <= i < reports.len() implies (#[trigger] reports[i]).passed by {
                if i < init.len() {
                    assert(init[i] == reports[i]);
                }
            }
        }
    }
}

/// No law of a batch is named as failing exactly when every law holds.
pub proof fn no_failures_iff_all_hold<S>(laws: Seq<&dyn ErasedLawCheck<S>>, subject: &S)
    ensures
        failing_names(laws, subject).len() == 0 <==> all_hold(laws, subject),
    decreases laws.len(),
{
    if laws.len() > 0 {
        let init = laws.drop_last();
        no_failures_iff_all_hold(init, subject);
        if all_hold(laws, subject) {
            assert forall|i: int| 0 <= i < init.len() implies (#[trigger] init[i]).passes(subject) by {
                assert(init[i] == laws[i]);
            }
            assert(laws[laws.len() - 1].passes(subject));
        } else if failing_names(laws, subject).len() == 0 {
            assert(laws.last().passes(subject));
            assert forall|i: int| 0 <= i < laws.len() implies (#[trigger] laws[i]).passes(subject) by {
                if i < init.len() {
                    assert(init[i] == laws[i]);
                }
            }
        }
    }
}

} // verus!
