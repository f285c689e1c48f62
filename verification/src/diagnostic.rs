//! Diagnostics, and how they are shown.

use vstd::prelude::*;
use vstd::string::*;

use crate::text;
use crate::text::{chars_of, decimal_string};

verus! {

/// The most characters of a message that a context line shows.
pub const MAX_MESSAGE_CHARS: usize = 300;

/// LSP `DiagnosticSeverity` (1=Error .. 4=Hint).
#[derive(Debug, Clone, Copy, PartialEq, Eq, Structural)]
pub enum DiagnosticSeverity {
    Error,
    Warning,
    Information,
    Hint,
}

/// One LSP diagnostic, trimmed to what an agent needs.
#[derive(Debug, PartialEq, Eq)]
pub struct Diagnostic {
    /// File URI or path the diagnostic belongs to.
    pub uri: String,
    /// 0-based start line.
    pub line: u32,
    /// 0-based start character.
    pub character: u32,
    pub severity: DiagnosticSeverity,
    pub message: String,
    /// Optional diagnostic code (e.g. `"PyF0001"`).
    pub code: Option<String>,
    /// Optional source (e.g. `"pyright"`).
    pub source: Option<String>,
}

/// What a [`Diagnostic`] says.
pub struct DiagnosticView {
    pub uri: Seq<char>,
    pub line: u32,
    pub character: u32,
    pub severity: DiagnosticSeverity,
    pub message: Seq<char>,
    pub code: Option<Seq<char>>,
    pub source: Option<Seq<char>>,
}

/// The text that may be there.
pub open spec fn optional_text(text: Option<String>) -> Option<Seq<char>> {
    match text {
        Some(text) => Some(text@),
        None => None,
    }
}

impl View for Diagnostic {
    type V = DiagnosticView;

    open spec fn view(&self) -> DiagnosticView {
        DiagnosticView {
            uri: self.uri@,
            line: self.line,
            character: self.character,
            severity: self.severity,
            message: self.message@,
            code: optional_text(self.code),
            source: optional_text(self.source),
        }
    }
}

impl Clone for Diagnostic {
    fn clone(&self) -> (r: Self)
        ensures
            r@ == self@,
    {
        Diagnostic {
            uri: self.uri.clone(),
            line: self.line,
            character: self.character,
            severity: self.severity,
            message: self.message.clone(),
            code: self.code.clone(),
            source: self.source.clone(),
        }
    }
}

/// The name under which a severity is shown.
pub open spec fn severity_name(severity: DiagnosticSeverity) -> Seq<char> {
    match severity {
        DiagnosticSeverity::Error => "error"@,
        DiagnosticSeverity::Warning => "warning"@,
        DiagnosticSeverity::Information => "info"@,
        DiagnosticSeverity::Hint => "hint"@,
    }
}

/// The severity of an LSP severity number: what is not 1, 2 or 3 is a hint.
pub open spec fn severity_of(value: u32) -> DiagnosticSeverity {
    if value == 1 {
        DiagnosticSeverity::Error
    } else if value == 2 {
        DiagnosticSeverity::Warning
    } else if value == 3 {
        DiagnosticSeverity::Information
    } else {
        DiagnosticSeverity::Hint
    }
}

/// The first `max_chars` characters of a text, with an ellipsis where some were left out.
pub open spec fn truncated(text: Seq<char>, max_chars: nat) -> Seq<char> {
    if text.len() <= max_chars {
        text
    } else {
        text.take(max_chars as int).push('\u{2026}')
    }
}

/// Whether a character breaks a line.
pub open spec fn is_line_break(c: char) -> bool {
    c == '\n' || c == '\r'
}

/// A text with a space in place of each line break.
pub open spec fn flattened(text: Seq<char>) -> Seq<char> {
    Seq::new(
        text.len(),
        |i: int|
            if is_line_break(text[i]) {
                ' '
            } else {
                text[i]
            },
    )
}

/// The line that shows a diagnostic, with places counted from one and line breaks shown as
/// spaces.
pub open spec fn context_line(diagnostic: DiagnosticView) -> Seq<char> {
    let code = match diagnostic.code {
        Some(code) => code,
        None => "-"@,
    };
    flattened(diagnostic.uri) + ":"@ + text::decimal((diagnostic.line + 1) as nat) + ":"@
        + text::decimal((diagnostic.character + 1) as nat) + " ["@ + severity_name(
        diagnostic.severity,
    ) + "] "@ + flattened(truncated(diagnostic.message, MAX_MESSAGE_CHARS as nat)) + " ("@
        + flattened(code) + ")"@
}

/// Whether a text stays on one line.
pub open spec fn one_line(text: Seq<char>) -> bool {
    forall|i: int| 0 <= i < text.len() ==> !is_line_break(#[trigger] text[i])
}

impl DiagnosticSeverity {
    pub fn as_str(self) -> (r: &'static str)
        ensures
            r@ == severity_name(self),
    {
        match self {
            DiagnosticSeverity::Error => "error",
            DiagnosticSeverity::Warning => "warning",
            DiagnosticSeverity::Information => "info",
            DiagnosticSeverity::Hint => "hint",
        }
    }

    pub fn from_lsp(value: u32) -> (r: Self)
        ensures
            r == severity_of(value),
    {
        match value {
            1 => DiagnosticSeverity::Error,
            2 => DiagnosticSeverity::Warning,
            3 => DiagnosticSeverity::Information,
            _ => DiagnosticSeverity::Hint,
        }
    }
}

/// Cuts a text off after `max_chars` characters.
pub fn truncate(text: &str, max_chars: usize) -> (r: String)
    ensures
        r@ == truncated(text@, max_chars as nat),
{
    if text.unicode_len() <= max_chars {
        text.to_owned()
    } else {
        let mut cut = text.substring_char(0, max_chars).to_owned();
        cut.append("\u{2026}");
        proof {
            reveal_strlit("\u{2026}");
            assert(cut@ =~= text@.take(max_chars as int).push('\u{2026}'));
        }
        cut
    }
}

/// Puts a space in place of each line break.
pub fn flatten(text: &str) -> (r: String)
    ensures
        r@ == flattened(text@),
        one_line(r@),
{
    proof {
        reveal_strlit(" ");
    }
    let chars = chars_of(text);
    let mut out = String::new();
    let mut start: usize = 0;
    let mut i: usize = 0;
    while i < chars.len()
        invariant
            start <= i <= chars@.len(),
            chars@ == text@,
            " "@ == seq![' '],
            out@ == flattened(text@.take(start as int)),
            forall|j: int| start <= j < i ==> !is_line_break(#[trigger] text@[j]),
        decreases chars@.len() - i,
    {
        if chars[i] == '\n' || chars[i] == '\r' {
            out.append(text.substring_char(start, i));
            out.append(" ");
            assert(out@ =~= flattened(text@.take(i + 1)));
            start = i + 1;
        }
        i = i + 1;
    }
    out.append(text.substring_char(start, i));
    assert(out@ =~= flattened(text@));
    out
}

impl Diagnostic {
    /// Bounded rendering for model context (each diagnostic is one line).
    pub fn to_context_line(&self) -> (r: String)
        requires
            self.line < u32::MAX,
            self.character < u32::MAX,
        ensures
            r@ == context_line(self@),
            one_line(r@),
    {
        proof {
            law_context_line_is_one_line(self@);
        }
        let code = match &self.code {
            Some(code) => code.as_str(),
            None => "-",
        };
        let mut out = flatten(self.uri.as_str());
        out.append(":");
        out.append(decimal_string((self.line + 1) as u64).as_str());
        out.append(":");
        out.append(decimal_string((self.character + 1) as u64).as_str());
        out.append(" [");
        out.append(self.severity.as_str());
        out.append("] ");
        out.append(flatten(truncate(self.message.as_str(), MAX_MESSAGE_CHARS).as_str()).as_str());
        out.append(" (");
        out.append(flatten(code).as_str());
        out.append(")");
        out
    }
}

/// A context line is longer than the diagnostic's URI and code by a bounded number of
/// characters, however long its message is.
pub proof fn law_context_line_is_bounded(diagnostic: DiagnosticView)
    ensures
        context_line(diagnostic).len() <= diagnostic.uri.len() + (match diagnostic.code {
            Some(code) => code.len(),
            None => 1,
        }) + 337,
{
    reveal_strlit(":");
    reveal_strlit(" [");
    reveal_strlit("] ");
    reveal_strlit(" (");
    reveal_strlit(")");
    reveal_strlit("-");
    reveal_strlit("error");
    reveal_strlit("warning");
    reveal_strlit("info");
    reveal_strlit("hint");
    text::lemma_decimal_is_short((diagnostic.line + 1) as nat);
    text::lemma_decimal_is_short((diagnostic.character + 1) as nat);
}

proof fn lemma_one_line_joins(a: Seq<char>, b: Seq<char>)
    requires
        one_line(a),
        one_line(b),
    ensures
        one_line(a + b),
{
}

/// Every diagnostic is shown on one line.
pub proof fn law_context_line_is_one_line(diagnostic: DiagnosticView)
    ensures
        one_line(context_line(diagnostic)),
{
    reveal_strlit(":");
    reveal_strlit(" [");
    reveal_strlit("] ");
    reveal_strlit(" (");
    reveal_strlit(")");
    reveal_strlit("-");
    reveal_strlit("error");
    reveal_strlit("warning");
    reveal_strlit("info");
    reveal_strlit("hint");
    let line = text::decimal((diagnostic.line + 1) as nat);
    let character = text::decimal((diagnostic.character + 1) as nat);
    text::lemma_decimal_reads_back((diagnostic.line + 1) as nat);
    text::lemma_decimal_reads_back((diagnostic.character + 1) as nat);
    assert forall|i: int| 0 <= i < line.len() implies !is_line_break(#[trigger] line[i]) by {
        assert(text::is_digit(line[i]));
    }
    assert forall|i: int| 0 <= i < character.len() implies !is_line_break(
        #[trigger] character[i],
    ) by {
        assert(text::is_digit(character[i]));
    }
    let code = match diagnostic.code {
        Some(code) => flattened(code),
        None => flattened("-"@),
    };
    let uri = flattened(diagnostic.uri);
    let message = flattened(truncated(diagnostic.message, MAX_MESSAGE_CHARS as nat));
    let a = uri + ":"@;
    lemma_one_line_joins(uri, ":"@);
    lemma_one_line_joins(a, line);
    lemma_one_line_joins(a + line, ":"@);
    lemma_one_line_joins(a + line + ":"@, character);
    let b = a + line + ":"@ + character;
    lemma_one_line_joins(b, " ["@);
    lemma_one_line_joins(b + " ["@, severity_name(diagnostic.severity));
    let c = b + " ["@ + severity_name(diagnostic.severity);
    lemma_one_line_joins(c, "] "@);
    lemma_one_line_joins(c + "] "@, message);
    lemma_one_line_joins(c + "] "@ + message, " ("@);
    lemma_one_line_joins(c + "] "@ + message + " ("@, code);
    lemma_one_line_joins(c + "] "@ + message + " ("@ + code, ")"@);
}

} // verus!
