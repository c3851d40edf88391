//! What a rule reports.
use vstd::prelude::*;

verus! {

/// How bad a finding is.
#[derive(Clone, Copy, Debug, PartialEq, Eq, Structural)]
pub enum Severity {
    Critical,
    High,
    Medium,
    Low,
}

/// How sure a rule is of a finding.
#[derive(Clone, Copy, Debug, PartialEq, Eq, Structural)]
pub enum Confidence {
    High,
    Medium,
    Low,
}

/// The chain a contract is written for.
#[derive(Clone, Copy, Debug, PartialEq, Eq, Structural)]
pub enum Chain {
    Solana,
    Near,
}

/// One reported weakness.
#[derive(Debug)]
pub struct Finding {
    pub detector_id: String,
    pub name: String,
    pub severity: Severity,
    pub confidence: Confidence,
    pub message: String,
    pub file: String,
    pub line: usize,
    pub column: usize,
    pub snippet: String,
    pub recommendation: String,
    pub chain: Chain,
}

/// The content of a [`Finding`], with its strings taken as character sequences.
pub struct Report {
    pub detector_id: Seq<char>,
    pub name: Seq<char>,
    pub severity: Severity,
    pub confidence: Confidence,
    pub message: Seq<char>,
    pub file: Seq<char>,
    pub line: usize,
    pub column: usize,
    pub snippet: Seq<char>,
    pub recommendation: Seq<char>,
    pub chain: Chain,
}

impl View for Finding {
    type V = Report;

    open spec fn view(&self) -> Report {
        Report {
            detector_id: self.detector_id@,
            name: self.name@,
            severity: self.severity,
            confidence: self.confidence,
            message: self.message@,
            file: self.file@,
            line: self.line,
            column: self.column,
            snippet: self.snippet@,
            recommendation: self.recommendation@,
            chain: self.chain,
        }
    }
}

/// The contents of a list of findings.
pub open spec fn reports(list: Seq<Finding>) -> Seq<Report> {
    Seq::new(list.len(), |i: int| list[i]@)
}

} // verus!
