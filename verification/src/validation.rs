//! Structural validation of PSLF EPC cases.

use vstd::prelude::*;
use crate::dyd::strings_view;
use crate::epc::{parse_epc, records_view, spec_epc, EpcCase};
use crate::records::{Record, RecordView};
use crate::num::{push_decimal, spec_decimal};
use crate::text::{push_str, string_of};

verus! {

/// Severity of a validation finding; `Error` makes a report unclean.
#[derive(Debug, Clone, Copy, PartialEq, Eq, Structural, PartialOrd, Ord)]
pub enum Severity {
    Info,
    Warning,
    Error,
}

impl Severity {
    /// The fixed-width label printed in front of a finding.
    pub fn label(self) -> (r: &'static str)
        ensures
            r@ == (match self {
                Severity::Info => "INFO "@,
                Severity::Warning => "WARN "@,
                Severity::Error => "ERROR"@,
            }),
    {
        match self {
            Severity::Info => "INFO ",
            Severity::Warning => "WARN ",
            Severity::Error => "ERROR",
        }
    }
}

/// One validation finding.
pub struct ValidationIssue {
    pub severity: Severity,
    pub code: String,
    pub message: String,
}

/// The findings of a validation run.
pub struct ValidationReport {
    pub issues: Vec<ValidationIssue>,
}

impl Default for ValidationReport {
    fn default() -> (r: Self)
        ensures
            r.issues@.len() == 0,
    {
        ValidationReport { issues: Vec::new() }
    }
}

impl ValidationReport {
    /// Clean when no finding has severity `Error`.
    pub open spec fn spec_is_clean(&self) -> bool {
        forall|i: int| 0 <= i < self.issues@.len() ==> self.issues@[i].severity != Severity::Error
    }

    pub fn is_clean(&self) -> (r: bool)
        ensures
            r == self.spec_is_clean(),
    {
        let mut i: usize = 0;
        while i < self.issues.len()
            invariant
                i <= self.issues@.len(),
                forall|k: int| 0 <= k < i ==> self.issues@[k].severity != Severity::Error,
            decreases self.issues@.len() - i,
        {
            match self.issues[i].severity {
                Severity::Error => {
                    return false;
                },
                _ => {},
            }
            i = i + 1;
        }
        true
    }
}

pub open spec fn spec_label(s: Severity) -> Seq<char> {
    match s {
        Severity::Info => "INFO "@,
        Severity::Warning => "WARN "@,
        Severity::Error => "ERROR"@,
    }
}

/// The printed line of one finding: `  {label} [{code}] {message}`.
pub open spec fn spec_issue_line(i: ValidationIssue) -> Seq<char> {
    "  "@ + spec_label(i.severity) + " ["@ + i.code@ + "] "@ + i.message@
}

/// The printed summary of a report: a line saying that nothing was found, or a
/// count line followed by one line per finding.
pub open spec fn spec_summary_lines(issues: Seq<ValidationIssue>) -> Seq<Seq<char>> {
    if issues.len() == 0 {
        seq!["[raptrix-pslf-rs] validation: no issues found"@]
    } else {
        seq!["[raptrix-pslf-rs] validation: "@ + spec_decimal(issues.len()) + " issue(s)"@]
            + issues.map_values(|i: ValidationIssue| spec_issue_line(i))
    }
}

impl ValidationReport {
    /// The lines that summarise the report, in print order.
    pub fn summary_lines(&self) -> (r: Vec<String>)
        ensures
            strings_view(r@) == spec_summary_lines(self.issues@),
    {
        let mut out: Vec<String> = Vec::new();
        if self.issues.len() == 0 {
            out.push(string_of("[raptrix-pslf-rs] validation: no issues found"));
            assert(strings_view(out@) =~= spec_summary_lines(self.issues@));
            return out;
        }
        let mut head = String::new();
        push_str(&mut head, "[raptrix-pslf-rs] validation: ");
        push_decimal(&mut head, self.issues.len() as u64);
        push_str(&mut head, " issue(s)");
        out.push(head);
        let ghost lines = self.issues@.map_values(|i: ValidationIssue| spec_issue_line(i));
        let mut k: usize = 0;
        while k < self.issues.len()
            invariant
                k <= self.issues@.len(),
                self.issues@.len() > 0,
                lines == self.issues@.map_values(|i: ValidationIssue| spec_issue_line(i)),
                strings_view(out@) == seq![
                    "[raptrix-pslf-rs] validation: "@ + spec_decimal(self.issues@.len())
                        + " issue(s)"@,
                ] + lines.subrange(0, k as int),
            decreases self.issues@.len() - k,
        {
            let issue = &self.issues[k];
            let mut line = String::new();
            push_str(&mut line, "  ");
            push_str(&mut line, issue.severity.label());
            push_str(&mut line, " [");
            push_str(&mut line, issue.code.as_str());
            push_str(&mut line, "] ");
            push_str(&mut line, issue.message.as_str());
            let ghost before = strings_view(out@);
            out.push(line);
            proof {
                assert(lines[k as int] == spec_issue_line(self.issues@[k as int]));
                assert(lines.subrange(0, k + 1) =~= lines.subrange(0, k as int).push(
                    lines[k as int],
                ));
                assert(strings_view(out@) =~= before.push(lines[k as int]));
            }
            k = k + 1;
        }
        assert(lines.subrange(0, lines.len() as int) =~= lines);
        out
    }
}

/// Whether some record is a bus record.
pub open spec fn spec_has_bus(rs: Seq<RecordView>) -> bool {
    exists|k: int| 0 <= k < rs.len() && #[trigger] rs[k] is Bus
}

/// Whether some record is a generator record.
pub open spec fn spec_has_generator(rs: Seq<RecordView>) -> bool {
    exists|k: int| 0 <= k < rs.len() && #[trigger] rs[k] is Generator
}

/// A finding as plain values: severity, code and message.
pub open spec fn issues_view(v: Seq<ValidationIssue>) -> Seq<(Severity, Seq<char>, Seq<char>)> {
    v.map_values(|i: ValidationIssue| (i.severity, i.code@, i.message@))
}

/// The findings of the basic checks: an error when the case has no bus data (a
/// power-flow case cannot do without it), a warning when it has no generator data.
pub open spec fn spec_basic_issues(rs: Seq<RecordView>) -> Seq<(Severity, Seq<char>, Seq<char>)> {
    (if spec_has_bus(rs) {
        Seq::empty()
    } else {
        seq![(Severity::Error, "EPC_NO_BUS_DATA"@, "case has no bus data records"@)]
    }) + (if spec_has_generator(rs) {
        Seq::empty()
    } else {
        seq![(Severity::Warning, "EPC_NO_GENERATOR_DATA"@, "case has no generator data records"@)]
    })
}

/// Basic structural checks on a parsed case: the required bus data is present,
/// and generator data is expected. The report is clean exactly when the case has
/// bus data.
pub fn run_basic_checks(case: &EpcCase) -> (r: ValidationReport)
    ensures
        issues_view(r.issues@) == spec_basic_issues(records_view(case.records@)),
        r.spec_is_clean() <==> spec_has_bus(records_view(case.records@)),
{
    let ghost rv = records_view(case.records@);
    let mut has_bus = false;
    let mut has_gen = false;
    let mut i: usize = 0;
    while i < case.records.len()
        invariant
            i <= case.records@.len(),
            rv == records_view(case.records@),
            has_bus == exists|k: int| 0 <= k < i && #[trigger] rv[k] is Bus,
            has_gen == exists|k: int| 0 <= k < i && #[trigger] rv[k] is Generator,
        decreases case.records@.len() - i,
    {
        assert(rv[i as int] == case.records@[i as int]@);
        match &case.records[i] {
            Record::Bus(_) => {
                has_bus = true;
            },
            Record::Generator(_) => {
                has_gen = true;
            },
            _ => {},
        }
        proof {
            if has_bus {
                if !(exists|k: int| 0 <= k < i && #[trigger] rv[k] is Bus) {
                    assert(rv[i as int] is Bus);
                }
            }
            if has_gen {
                if !(exists|k: int| 0 <= k < i && #[trigger] rv[k] is Generator) {
                    assert(rv[i as int] is Generator);
                }
            }
        }
        i = i + 1;
    }
    let mut issues: Vec<ValidationIssue> = Vec::new();
    if !has_bus {
        issues.push(
            ValidationIssue {
                severity: Severity::Error,
                code: string_of("EPC_NO_BUS_DATA"),
                message: string_of("case has no bus data records"),
            },
        );
    }
    let ghost first = issues_view(issues@);
    if !has_gen {
        issues.push(
            ValidationIssue {
                severity: Severity::Warning,
                code: string_of("EPC_NO_GENERATOR_DATA"),
                message: string_of("case has no generator data records"),
            },
        );
    }
    let r = ValidationReport { issues };
    proof {
        let want = spec_basic_issues(rv);
        assert(issues_view(r.issues@) =~= want);
        if has_bus {
            if !has_gen {
                assert(r.issues@[0].severity == Severity::Warning);
            }
        } else {
            assert(r.issues@[0].severity == Severity::Error);
        }
    }
    r
}

/// Validates the lines of an EPC file: they are parsed (which cannot fail on lines
/// that were read) and the basic checks are run on the case; the report is clean
/// exactly when the case has bus data.
pub fn validate_pslf_epc(lines: &Vec<String>) -> (r: ValidationReport)
    ensures
        issues_view(r.issues@) == spec_basic_issues(spec_epc(lines@).records),
        r.spec_is_clean() <==> spec_has_bus(spec_epc(lines@).records),
{
    let case = parse_epc(lines);
    run_basic_checks(&case)
}

} // verus!
