//! A finding of project validation.
use vstd::prelude::*;

use crate::strings::{append_str, copy_str};

verus! {

#[derive(Clone, Copy, Debug, PartialEq, Eq, Structural)]
pub enum ValidationSeverity {
    Error,
    Warning,
}

/// How a severity is written: `error` or `warning`.
pub open spec fn severity_text(s: ValidationSeverity) -> Seq<char> {
    match s {
        ValidationSeverity::Error => "error"@,
        ValidationSeverity::Warning => "warning"@,
    }
}

impl ValidationSeverity {
    /// The severity as text (`error` or `warning`).
    pub fn to_display(&self) -> (r: String)
        ensures
            r@ == severity_text(*self),
    {
        proof {
            reveal_strlit("error");
            reveal_strlit("warning");
        }
        match self {
            ValidationSeverity::Error => copy_str("error"),
            ValidationSeverity::Warning => copy_str("warning"),
        }
    }
}

pub struct ValidationDiagnostic {
    pub severity: ValidationSeverity,
    pub code: &'static str,
    pub path: Option<String>,
    pub context: Option<String>,
    pub message: String,
}

pub struct DiagnosticView {
    pub severity: ValidationSeverity,
    pub code: Seq<char>,
    pub path: Option<Seq<char>>,
    pub context: Option<Seq<char>>,
    pub message: Seq<char>,
}

impl View for ValidationDiagnostic {
    type V = DiagnosticView;

    open spec fn view(&self) -> DiagnosticView {
        DiagnosticView {
            severity: self.severity,
            code: self.code@,
            path: crate::models::opt_view(self.path),
            context: crate::models::opt_view(self.context),
            message: self.message@,
        }
    }
}

/// How a diagnostic is shown: `path severity[code]: message`, then ` (context)` if there is one.
pub open spec fn display_text(d: DiagnosticView) -> Seq<char>
    recommends
        d.path is Some,
{
    let head = d.path->0 + " "@ + severity_text(d.severity) + "["@ + d.code + "]: "@ + d.message;
    match d.context {
        Some(c) => head + " ("@ + c + ")"@,
        None => head,
    }
}

impl ValidationDiagnostic {
    /// An error diagnostic.
    pub fn error(
        code: &'static str,
        path: Option<String>,
        context: Option<String>,
        message: String,
    ) -> (r: ValidationDiagnostic)
        ensures
            r.severity == ValidationSeverity::Error,
            r.code == code,
            r.path == path,
            r.context == context,
            r.message == message,
    {
        ValidationDiagnostic { severity: ValidationSeverity::Error, code, path, context, message }
    }

    /// The diagnostic as one line of text; it names the diagnostic's path, which must be set.
    pub fn to_display(&self) -> (r: String)
        requires
            self.path is Some,
        ensures
            r@ == display_text(self@),
    {
        proof {
            reveal_strlit(" ");
            reveal_strlit("[");
            reveal_strlit("]: ");
            reveal_strlit(" (");
            reveal_strlit(")");
        }
        let mut r = match &self.path {
            Some(p) => copy_str(p.as_str()),
            None => String::new(),
        };
        append_str(&mut r, " ");
        let sev = self.severity.to_display();
        append_str(&mut r, sev.as_str());
        append_str(&mut r, "[");
        append_str(&mut r, self.code);
        append_str(&mut r, "]: ");
        append_str(&mut r, self.message.as_str());
        match &self.context {
            Some(c) => {
                append_str(&mut r, " (");
                append_str(&mut r, c.as_str());
                append_str(&mut r, ")");
            },
            None => {},
        }
        r
    }
}

} // verus!
