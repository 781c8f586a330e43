use vstd::prelude::*;
use vstd::string::*;

use crate::text::{append_decimal, decimal};
use crate::upgrades::compat::{AuthorizationCheck, CompatStatus, CompatibilityResult};

verus! {

/// The text of the summary of a result.
pub open spec fn summary_text(r: CompatibilityResult) -> Seq<char> {
    "=== Upgrade Compatibility Report ===\n\n"@ + "V1: "@ + r.v1_hash@ + "\nV2: "@ + r.v2_hash@
        + "\n\n"@ + (if r.is_fully_compatible {
        "Result: COMPATIBLE\n"@
    } else {
        "Result: BLOCKED ("@ + decimal(r.spec_breaking_count()) + " breaking checks)\n"@
    }) + "Warnings: "@ + decimal(r.spec_warning_count()) + "\n"@ + "Migration steps: "@
        + decimal(r.migration@.len()) + "\n"@
}

/// The security note written for one authorization check.
pub open spec fn security_note_text(c: AuthorizationCheck) -> Seq<char> {
    match c.status {
        CompatStatus::Compatible => "auth ok: "@ + c.rule@,
        CompatStatus::Warning(reason) => "auth warning: "@ + c.rule@ + " ("@ + reason@ + ")"@,
        CompatStatus::Breaking(reason) => "auth blocking: "@ + c.rule@ + " ("@ + reason@ + ")"@,
    }
}

pub struct CompatibilityReport {
    pub result: CompatibilityResult,
}

impl CompatibilityReport {
    pub fn new(result: CompatibilityResult) -> (r: Self)
        ensures
            r.result == result,
    {
        Self { result }
    }

    pub fn summary(&self) -> (s: String)
        requires
            self.result.counts_fit(),
        ensures
            s@ == summary_text(self.result),
    {
        let mut s = String::new();
        s.append("=== Upgrade Compatibility Report ===\n\n");
        s.append("V1: ");
        s.append(self.result.v1_hash.as_str());
        s.append("\nV2: ");
        s.append(self.result.v2_hash.as_str());
        s.append("\n\n");
        if self.result.is_fully_compatible {
            s.append("Result: COMPATIBLE\n");
        } else {
            s.append("Result: BLOCKED (");
            append_decimal(&mut s, self.result.breaking_count());
            s.append(" breaking checks)\n");
        }
        s.append("Warnings: ");
        append_decimal(&mut s, self.result.warning_count());
        s.append("\n");
        s.append("Migration steps: ");
        append_decimal(&mut s, self.result.migration.len());
        s.append("\n");
        assert(s@ =~= summary_text(self.result));
        s
    }

    pub fn security_notes(&self) -> (notes: Vec<String>)
        ensures
            notes@.len() == self.result.authorization@.len(),
            forall|i: int|
                0 <= i < notes@.len() ==> (#[trigger] notes@[i])@ == security_note_text(
                    self.result.authorization@[i],
                ),
    {
        let mut notes: Vec<String> = Vec::new();
        let mut i: usize = 0;
        while i < self.result.authorization.len()
            invariant
                0 <= i <= self.result.authorization@.len(),
                notes@.len() == i,
                forall|j: int|
                    0 <= j < i ==> (#[trigger] notes@[j])@ == security_note_text(
                        self.result.authorization@[j],
                    ),
            decreases self.result.authorization.len() - i,
        {
            let check = &self.result.authorization[i];
            let mut note = String::new();
            match &check.status {
                CompatStatus::Compatible => {
                    note.append("auth ok: ");
                    note.append(check.rule.as_str());
                },
                CompatStatus::Warning(reason) => {
                    note.append("auth warning: ");
                    note.append(check.rule.as_str());
                    note.append(" (");
                    note.append(reason.as_str());
                    note.append(")");
                },
                CompatStatus::Breaking(reason) => {
                    note.append("auth blocking: ");
                    note.append(check.rule.as_str());
                    note.append(" (");
                    note.append(reason.as_str());
                    note.append(")");
                },
            }
            assert(note@ =~= security_note_text(self.result.authorization@[i as int]));
            notes.push(note);
            i = i + 1;
        }
        notes
    }
}

} // verus!
