//! Severities, and the line that shows a diagnostic.

use vstd::prelude::*;

use crate::diagnostic;
use crate::diagnostic::{Diagnostic, DiagnosticSeverity, DiagnosticView};
use crate::text;

verus! {

/// The numbers of the severities: every number but 1, 2 and 3 is that of a hint.
pub proof fn law_severity_numbers(value: u32)
    ensures
        diagnostic::severity_of(1) == DiagnosticSeverity::Error,
        diagnostic::severity_of(2) == DiagnosticSeverity::Warning,
        diagnostic::severity_of(3) == DiagnosticSeverity::Information,
        value == 0 || value >= 4 ==> diagnostic::severity_of(value) == DiagnosticSeverity::Hint,
{
}

/// A text that is not too long stays as it is. Of one that is too long the first characters
/// stay, and an ellipsis follows.
pub proof fn law_truncation(text: Seq<char>, max_chars: nat, i: int)
    ensures
        text.len() <= max_chars ==> diagnostic::truncated(text, max_chars) == text,
        text.len() > max_chars ==> {
            &&& diagnostic::truncated(text, max_chars).len() == max_chars + 1
            &&& 0 <= i < max_chars ==> diagnostic::truncated(text, max_chars)[i] == text[i]
            &&& diagnostic::truncated(text, max_chars)[max_chars as int] == '\u{2026}'
        },
{
}

/// Flattening puts a space in place of each line break, and changes nothing else.
pub proof fn law_flattening(text: Seq<char>, i: int)
    requires
        0 <= i < text.len(),
    ensures
        diagnostic::flattened(text).len() == text.len(),
        text[i] == '\n' || text[i] == '\r' ==> diagnostic::flattened(text)[i] == ' ',
        text[i] != '\n' && text[i] != '\r' ==> diagnostic::flattened(text)[i] == text[i],
{
}

/// A text stays on one line if and only if it has no line break.
pub proof fn law_one_line(text: Seq<char>)
    ensures
        diagnostic::one_line(text) <==> !text.contains('\n') && !text.contains('\r'),
{
    if diagnostic::one_line(text) {
        assert forall|i: int| 0 <= i < text.len() implies text[i] != '\n' && text[i] != '\r' by {
            assert(!diagnostic::is_line_break(text[i]));
        }
    } else {
        let i = choose|i: int|
            0 <= i < text.len() && diagnostic::is_line_break(#[trigger] text[i]);
        assert(text.contains(text[i]));
    }
}

/// The line that shows a diagnostic: where it stands, counted from one, how bad it is, what it
/// says, in three hundred characters at most, and its code.
pub proof fn law_context_line(shown: DiagnosticView)
    ensures
        diagnostic::context_line(shown) == diagnostic::flattened(shown.uri) + seq![':']
            + text::decimal((shown.line as int + 1) as nat) + seq![':'] + text::decimal(
            (shown.character as int + 1) as nat,
        ) + seq![' ', '['] + (match shown.severity {
            DiagnosticSeverity::Error => "error"@,
            DiagnosticSeverity::Warning => "warning"@,
            DiagnosticSeverity::Information => "info"@,
            DiagnosticSeverity::Hint => "hint"@,
        }) + seq![']', ' '] + (if shown.message.len() <= 300 {
            diagnostic::flattened(shown.message)
        } else {
            diagnostic::flattened(shown.message.take(300)).push('\u{2026}')
        }) + seq![' ', '('] + (match shown.code {
            Some(code) => diagnostic::flattened(code),
            None => seq!['-'],
        }) + seq![')'],
{
    reveal_strlit(":");
    reveal_strlit(" [");
    reveal_strlit("] ");
    reveal_strlit(" (");
    reveal_strlit(")");
    reveal_strlit("-");
    assert(":"@ =~= seq![':']);
    assert(" ["@ =~= seq![' ', '[']);
    assert("] "@ =~= seq![']', ' ']);
    assert(" ("@ =~= seq![' ', '(']);
    assert(")"@ =~= seq![')']);
    assert(diagnostic::flattened("-"@) =~= seq!['-']);
    if shown.message.len() > 300 {
        assert(diagnostic::flattened(shown.message.take(300).push('\u{2026}'))
            =~= diagnostic::flattened(shown.message.take(300)).push('\u{2026}'));
    }
}

/// A diagnostic says what its fields hold.
pub proof fn law_diagnostics(found: Diagnostic)
    ensures
        found@.uri == found.uri@,
        found@.line == found.line,
        found@.character == found.character,
        found@.severity == found.severity,
        found@.message == found.message@,
        found.code matches Some(code) ==> found@.code == Some(code@),
        found.code is None ==> found@.code is None,
        found.source matches Some(source) ==> found@.source == Some(source@),
        found.source is None ==> found@.source is None,
{
}

} // verus!
