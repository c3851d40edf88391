//! What every rule has in common.
use vstd::prelude::*;
use crate::context::{snippet, snippet_at_line, ScanContext};
use crate::finding::{reports, Chain, Confidence, Finding, Report, Severity};

verus! {

/// A rule's fixed description of itself.
pub struct Profile {
    pub id: Seq<char>,
    pub name: Seq<char>,
    pub description: Seq<char>,
    pub severity: Severity,
    pub confidence: Confidence,
    pub chain: Chain,
}

/// A rule's fixed description of itself, to be read by programs.
pub struct RuleInfo {
    pub id: &'static str,
    pub name: &'static str,
    pub description: &'static str,
    pub severity: Severity,
    pub confidence: Confidence,
    pub chain: Chain,
}

impl View for RuleInfo {
    type V = Profile;

    open spec fn view(&self) -> Profile {
        Profile {
            id: self.id@,
            name: self.name@,
            description: self.description@,
            severity: self.severity,
            confidence: self.confidence,
            chain: self.chain,
        }
    }
}

/// The report that a rule with profile `p` makes at a place in a file.
pub open spec fn raised(
    p: Profile,
    ctx: ScanContext,
    confidence: Confidence,
    line: usize,
    column: usize,
    message: Seq<char>,
    advice: Seq<char>,
) -> Report {
    Report {
        detector_id: p.id,
        name: p.name,
        severity: p.severity,
        confidence,
        message,
        file: ctx.file_path@,
        line,
        column,
        snippet: snippet(ctx.source@, line),
        recommendation: advice,
        chain: p.chain,
    }
}

/// `r` names the rule and the file that it comes from.
pub open spec fn stamped(r: Report, p: Profile, ctx: ScanContext) -> bool {
    &&& r.detector_id == p.id
    &&& r.name == p.name
    &&& r.severity == p.severity
    &&& r.chain == p.chain
    &&& r.file == ctx.file_path@
}

/// `r` names the rule and the file that it comes from, and has the confidence that
/// the rule states of itself.
pub open spec fn fully_stamped(r: Report, p: Profile, ctx: ScanContext) -> bool {
    stamped(r, p, ctx) && r.confidence == p.confidence
}

/// An audit rule.
pub trait Detector {
    /// The rule's fixed description of itself.
    spec fn profile(&self) -> Profile;

    /// Everything that the rule has to report on a file.
    spec fn reports_on(&self, ctx: ScanContext) -> Seq<Report>;

    fn id(&self) -> (r: &'static str)
        ensures
            r@ == self.profile().id,
    ;

    fn name(&self) -> (r: &'static str)
        ensures
            r@ == self.profile().name,
    ;

    fn description(&self) -> (r: &'static str)
        ensures
            r@ == self.profile().description,
    ;

    fn severity(&self) -> (r: Severity)
        ensures
            r == self.profile().severity,
    ;

    fn confidence(&self) -> (r: Confidence)
        ensures
            r == self.profile().confidence,
    ;

    fn chain(&self) -> (r: Chain)
        ensures
            r == self.profile().chain,
    ;

    /// Runs the rule on a file.
    fn detect(&self, ctx: &ScanContext) -> (r: Vec<Finding>)
        ensures
            reports(r@) == self.reports_on(*ctx),
    ;

    /// Every finding carries the id, the name, the severity and the chain of the
    /// rule that made it, and the path of the file that it was made on.
    proof fn law_findings_are_stamped(&self, ctx: ScanContext)
        ensures
            forall|i: int|
                0 <= i < self.reports_on(ctx).len() ==> stamped(
                    #[trigger] self.reports_on(ctx)[i],
                    self.profile(),
                    ctx,
                ),
    ;
}

/// Makes a finding of a rule at a place in a file.
pub(crate) fn raise(
    rule: &RuleInfo,
    ctx: &ScanContext,
    confidence: Confidence,
    line: usize,
    column: usize,
    message: String,
    advice: &str,
) -> (f: Finding)
    ensures
        f@ == raised(rule@, *ctx, confidence, line, column, message@, advice@),
{
    Finding {
        detector_id: rule.id.to_owned(),
        name: rule.name.to_owned(),
        severity: rule.severity,
        confidence,
        message,
        file: ctx.file_path.clone(),
        line,
        column,
        snippet: snippet_at_line(ctx.source.as_str(), line),
        recommendation: advice.to_owned(),
        chain: rule.chain,
    }
}

} // verus!
