//! Findings: reading them out of the compiler's messages.

use vstd::prelude::*;

use crate::fixes::{extract_suggestion, suggested};
use crate::json::{item_views, Json, JsonView};
use crate::lint::{is_lint_name, names_a_lint};
use crate::text::{optional_text, same_text};

verus! {

/// A place in a file; lines and columns count from one, and zero stands for
/// none.
#[derive(Debug, Clone, Copy, PartialEq, Eq, Structural)]
pub struct Span {
    pub line_start: usize,
    pub line_end: usize,
    pub column_start: usize,
    pub column_end: usize,
}

/// What a lint has found, as the compiler reports it.
pub struct LintFinding {
    pub name: String,
    pub level: String,
    pub file: String,
    pub span: Span,
    pub message: String,
    pub help: Option<String>,
    pub suggestion: Option<String>,
}

/// A finding with its texts as sequences.
pub struct LintFindingView {
    pub name: Seq<char>,
    pub level: Seq<char>,
    pub file: Seq<char>,
    pub span: Span,
    pub message: Seq<char>,
    pub help: Option<Seq<char>>,
    pub suggestion: Option<Seq<char>>,
}

impl View for LintFinding {
    type V = LintFindingView;

    open spec fn view(&self) -> LintFindingView {
        LintFindingView {
            name: self.name@,
            level: self.level@,
            file: self.file@,
            span: self.span,
            message: self.message@,
            help: optional_text(self.help),
            suggestion: optional_text(self.suggestion),
        }
    }
}

/// The views of a list of findings.
pub open spec fn finding_views(findings: Seq<LintFinding>) -> Seq<LintFindingView> {
    findings.map_values(|finding: LintFinding| finding@)
}

/// A finding, with the text in which the compiler shows it.
pub struct LintMessage {
    pub finding: LintFinding,
    pub rendered: String,
}

/// A finding, with the text in which the compiler shows it.
pub struct LintMessageView {
    pub finding: LintFindingView,
    pub rendered: Seq<char>,
}

impl View for LintMessage {
    type V = LintMessageView;

    open spec fn view(&self) -> LintMessageView {
        LintMessageView { finding: self.finding@, rendered: self.rendered@ }
    }
}

/// A text, or `default` where there is none.
pub open spec fn text_or(text: Option<Seq<char>>, default: Seq<char>) -> Seq<char> {
    match text {
        Some(text) => text,
        None => default,
    }
}

/// A number, or zero where there is none.
pub open spec fn number_or_zero(number: Option<u64>) -> usize {
    match number {
        Some(number) => number as usize,
        None => 0,
    }
}

/// The first of `spans` from `from` on that is marked as the primary one.
pub open spec fn first_primary(spans: Seq<JsonView>, from: int) -> Option<JsonView>
    decreases spans.len() - from,
{
    if from < 0 || from >= spans.len() {
        None
    } else if spans[from].get_bool("is_primary"@) == Some(true) {
        Some(spans[from])
    } else {
        first_primary(spans, from + 1)
    }
}

/// The primary span of a compiler message.
pub open spec fn primary_span(message: JsonView) -> Option<JsonView> {
    match message.get_array("spans"@) {
        Some(spans) => first_primary(spans, 0),
        None => None,
    }
}

/// The file of a compiler message, empty where it names none.
pub open spec fn message_file(message: JsonView) -> Seq<char> {
    match primary_span(message) {
        Some(span) => text_or(span.get_str("file_name"@), Seq::empty()),
        None => Seq::empty(),
    }
}

/// The place of a compiler message in its file.
pub open spec fn message_span(message: JsonView) -> Span {
    match primary_span(message) {
        Some(span) => Span {
            line_start: number_or_zero(span.get_u64("line_start"@)),
            line_end: number_or_zero(span.get_u64("line_end"@)),
            column_start: number_or_zero(span.get_u64("column_start"@)),
            column_end: number_or_zero(span.get_u64("column_end"@)),
        },
        None => Span { line_start: 0, line_end: 0, column_start: 0, column_end: 0 },
    }
}

/// The first of `children` from `from` on that is advice.
pub open spec fn first_help(children: Seq<JsonView>, from: int) -> Option<JsonView>
    decreases children.len() - from,
{
    if from < 0 || from >= children.len() {
        None
    } else if children[from].get_str("level"@) == Some("help"@) {
        Some(children[from])
    } else {
        first_help(children, from + 1)
    }
}

/// The advice of a compiler message.
pub open spec fn message_help(message: JsonView) -> Option<Seq<char>> {
    match message.get_array("children"@) {
        Some(children) => match first_help(children, 0) {
            Some(child) => child.get_str("message"@),
            None => None,
        },
        None => None,
    }
}

/// The text of a compiler message.
pub open spec fn message_text(message: JsonView) -> Seq<char> {
    text_or(message.get_str("message"@), Seq::empty())
}

/// What a compiler message reports under the lint `name`; the replacement is
/// taken out of the advice only where fixes are asked for.
pub open spec fn message_finding(
    message: JsonView,
    name: Seq<char>,
    fix: bool,
) -> LintFindingView {
    let help = message_help(message);
    LintFindingView {
        name,
        level: text_or(message.get_str("level"@), "unknown"@),
        file: message_file(message),
        span: message_span(message),
        message: message_text(message),
        help,
        suggestion: if fix {
            suggested(help, name)
        } else {
            None
        },
    }
}

/// The name of the lint that a line of the compiler's output is about: that of
/// a compiler message whose code is the name of one of the lints.
pub open spec fn reported_lint(line: JsonView) -> Option<Seq<char>> {
    if line.get_str("reason"@) == Some("compiler-message"@) {
        match line.get("message"@) {
            Some(message) => match message.get("code"@) {
                Some(code) => match code.get_str("code"@) {
                    Some(name) if names_a_lint(name) => Some(name),
                    _ => None,
                },
                None => None,
            },
            None => None,
        }
    } else {
        None
    }
}

/// The finding in a line of the compiler's output, if there is one.
pub open spec fn line_message(line: JsonView, fix: bool) -> Option<LintMessageView> {
    match reported_lint(line) {
        Some(name) => {
            let message = line.get("message"@)->0;
            Some(
                LintMessageView {
                    finding: message_finding(message, name, fix),
                    rendered: text_or(message.get_str("rendered"@), message_text(message)),
                },
            )
        },
        None => None,
    }
}

/// The view of a message, if there is one.
pub open spec fn optional_message(message: Option<LintMessage>) -> Option<LintMessageView> {
    match message {
        Some(message) => Some(message@),
        None => None,
    }
}

fn to_text_or(text: Option<&str>, default: &str) -> (chosen: String)
    ensures
        chosen@ == text_or(
            match text {
                Some(text) => Some(text@),
                None => None,
            },
            default@,
        ),
{
    match text {
        Some(text) => text.to_string(),
        None => default.to_string(),
    }
}

fn to_number_or_zero(number: Option<u64>) -> (chosen: usize)
    ensures
        chosen == number_or_zero(number),
{
    match number {
        Some(number) => number as usize,
        None => 0,
    }
}

fn find_primary(message: &Json) -> (found: Option<&Json>)
    ensures
        match found {
            Some(span) => primary_span(message@) == Some(span@),
            None => primary_span(message@) is None,
        },
{
    match message.get_array("spans") {
        Some(spans) => {
            for i in 0..spans.len()
                invariant
                    primary_span(message@) == first_primary(item_views(spans@), i as int),
            {
                assert(item_views(spans@)[i as int] == spans@[i as int]@);
                if let Some(true) = spans[i].get_bool("is_primary") {
                    return Some(&spans[i]);
                }
            }
            None
        },
        None => None,
    }
}

fn find_help(message: &Json) -> (help: Option<String>)
    ensures
        optional_text(help) == message_help(message@),
{
    match message.get_array("children") {
        Some(children) => {
            for i in 0..children.len()
                invariant
                    message@.get_array("children"@) == Some(item_views(children@)),
                    first_help(item_views(children@), 0) == first_help(
                        item_views(children@),
                        i as int,
                    ),
            {
                assert(item_views(children@)[i as int] == children@[i as int]@);
                let is_help = match children[i].get_str("level") {
                    Some(level) => same_text(level, "help"),
                    None => false,
                };
                if is_help {
                    return match children[i].get_str("message") {
                        Some(text) => Some(text.to_string()),
                        None => None,
                    };
                }
            }
            None
        },
        None => None,
    }
}

fn read_finding(message: &Json, name: &str, fix: bool) -> (finding: LintFinding)
    ensures
        finding@ == message_finding(message@, name@, fix),
{
    proof {
        reveal_strlit("");
    }
    assert(""@ =~= Seq::empty());
    let level = to_text_or(message.get_str("level"), "unknown");
    let text = to_text_or(message.get_str("message"), "");
    let mut file = String::new();
    let mut span = Span { line_start: 0, line_end: 0, column_start: 0, column_end: 0 };
    if let Some(primary) = find_primary(message) {
        file = to_text_or(primary.get_str("file_name"), "");
        span = Span {
            line_start: to_number_or_zero(primary.get_u64("line_start")),
            line_end: to_number_or_zero(primary.get_u64("line_end")),
            column_start: to_number_or_zero(primary.get_u64("column_start")),
            column_end: to_number_or_zero(primary.get_u64("column_end")),
        };
    }
    let help = find_help(message);
    let suggestion = if fix {
        extract_suggestion(&help, name)
    } else {
        None
    };
    LintFinding { name: name.to_string(), level, file, span, message: text, help, suggestion }
}

/// The finding in a line of the compiler's output, if there is one.
pub fn lint_message(line: &Json, fix: bool) -> (found: Option<LintMessage>)
    ensures
        optional_message(found) == line_message(line@, fix),
{
    let is_message = match line.get_str("reason") {
        Some(reason) => same_text(reason, "compiler-message"),
        None => false,
    };
    if !is_message {
        return None;
    }
    let message = match line.get("message") {
        Some(message) => message,
        None => {
            return None;
        },
    };
    let code = match message.get("code") {
        Some(code) => code,
        None => {
            return None;
        },
    };
    let name = match code.get_str("code") {
        Some(name) => name,
        None => {
            return None;
        },
    };
    if !is_lint_name(name) {
        return None;
    }
    let finding = read_finding(message, name, fix);
    let rendered = to_text_or(message.get_str("rendered"), finding.message.as_str());
    Some(LintMessage { finding, rendered })
}

/// Whether fixes are asked for decides on the replacement only: all else that is
/// read of a line is the same.
pub proof fn fixes_add_only_the_replacement(line: JsonView)
    ensures
        line_message(line, true) is Some <==> line_message(line, false) is Some,
        line_message(line, true) matches Some(message) ==> line_message(line, false) == Some(
            LintMessageView {
                finding: LintFindingView { suggestion: None, ..message.finding },
                rendered: message.rendered,
            },
        ),
{
}

/// What is found in a line carries the name of one of the lints.
pub proof fn findings_name_a_lint(line: JsonView, fix: bool)
    ensures
        line_message(line, fix) matches Some(message) ==> names_a_lint(message.finding.name),
{
}

/// A line holds a finding exactly where it is a compiler message whose code is the
/// name of a lint, and the finding has that name.
pub proof fn findings_are_messages_of_lints(line: JsonView, fix: bool)
    ensures
        line_message(line, fix) is Some <==> ({
            &&& line.get_str("reason"@) == Some("compiler-message"@)
            &&& line.get("message"@) matches Some(message)
            &&& message.get("code"@) matches Some(code)
            &&& code.get_str("code"@) matches Some(name)
            &&& names_a_lint(name)
        }),
        line_message(line, fix) matches Some(found) ==> {
            &&& line.get("message"@) matches Some(message)
            &&& message.get("code"@) matches Some(code)
            &&& code.get_str("code"@) == Some(found.finding.name)
        },
{
}

/// The level and the text of a finding are those of the message, `unknown` and
/// empty where it has none; what is shown is what the message is rendered to, and
/// its text where it is not. A replacement is looked for only where fixes are
/// asked for, in the advice and under the name of the finding.
pub proof fn findings_say_what_the_message_says(line: JsonView, message: JsonView, fix: bool)
    requires
        line.get("message"@) == Some(message),
        line_message(line, fix) is Some,
    ensures
        ({
            let found = line_message(line, fix)->0;
            &&& match message.get_str("level"@) {
                Some(level) => found.finding.level == level,
                None => found.finding.level == "unknown"@,
            }
            &&& match message.get_str("message"@) {
                Some(text) => found.finding.message == text,
                None => found.finding.message.len() == 0,
            }
            &&& match message.get_str("rendered"@) {
                Some(text) => found.rendered == text,
                None => found.rendered == found.finding.message,
            }
            &&& found.finding.suggestion == if fix {
                suggested(found.finding.help, found.finding.name)
            } else {
                None
            }
        }),
{
}

/// A finding is in the file and at the place of the first span that is marked as
/// the primary one. What that span leaves out is empty or zero.
pub proof fn findings_are_at_the_first_primary_span(
    line: JsonView,
    message: JsonView,
    spans: Seq<JsonView>,
    k: int,
    fix: bool,
)
    requires
        line.get("message"@) == Some(message),
        line_message(line, fix) is Some,
        message.get_array("spans"@) == Some(spans),
        0 <= k < spans.len(),
        spans[k].get_bool("is_primary"@) == Some(true),
        forall|j: int| 0 <= j < k ==> (#[trigger] spans[j]).get_bool("is_primary"@) != Some(true),
    ensures
        ({
            let finding = line_message(line, fix)->0.finding;
            &&& match spans[k].get_str("file_name"@) {
                Some(file) => finding.file == file,
                None => finding.file.len() == 0,
            }
            &&& match spans[k].get_u64("line_start"@) {
                Some(number) => finding.span.line_start == number as usize,
                None => finding.span.line_start == 0,
            }
            &&& match spans[k].get_u64("line_end"@) {
                Some(number) => finding.span.line_end == number as usize,
                None => finding.span.line_end == 0,
            }
            &&& match spans[k].get_u64("column_start"@) {
                Some(number) => finding.span.column_start == number as usize,
                None => finding.span.column_start == 0,
            }
            &&& match spans[k].get_u64("column_end"@) {
                Some(number) => finding.span.column_end == number as usize,
                None => finding.span.column_end == 0,
            }
        }),
{
    primary_is_first(spans, 0, k);
}

/// Where no span is marked as the primary one, a finding is in no file and at no
/// place.
pub proof fn findings_without_a_primary_span_have_no_place(
    line: JsonView,
    message: JsonView,
    fix: bool,
)
    requires
        line.get("message"@) == Some(message),
        line_message(line, fix) is Some,
        message.get_array("spans"@) matches Some(spans) ==> forall|j: int|
            0 <= j < spans.len() ==> (#[trigger] spans[j]).get_bool("is_primary"@) != Some(true),
    ensures
        ({
            let finding = line_message(line, fix)->0.finding;
            &&& finding.file.len() == 0
            &&& finding.span.line_start == 0
            &&& finding.span.line_end == 0
            &&& finding.span.column_start == 0
            &&& finding.span.column_end == 0
        }),
{
    if let Some(spans) = message.get_array("spans"@) {
        primary_is_first(spans, 0, spans.len() as int);
    }
}

/// The advice of a finding is the text of the first of the messages below its
/// message that is advice; where none is, there is no advice.
pub proof fn findings_have_the_first_advice(
    line: JsonView,
    message: JsonView,
    children: Seq<JsonView>,
    k: int,
    fix: bool,
)
    requires
        line.get("message"@) == Some(message),
        line_message(line, fix) is Some,
        0 <= k <= children.len(),
        forall|j: int|
            0 <= j < k ==> (#[trigger] children[j]).get_str("level"@) != Some("help"@),
        k < children.len() ==> children[k].get_str("level"@) == Some("help"@),
    ensures
        message.get_array("children"@) == Some(children) ==> line_message(
            line,
            fix,
        )->0.finding.help == if k < children.len() {
            children[k].get_str("message"@)
        } else {
            None
        },
        message.get_array("children"@) is None ==> line_message(line, fix)->0.finding.help is None,
{
    help_is_first(children, 0, k);
}

proof fn primary_is_first(spans: Seq<JsonView>, from: int, k: int)
    requires
        0 <= from <= k <= spans.len(),
        forall|j: int| from <= j < k ==> (#[trigger] spans[j]).get_bool("is_primary"@) != Some(true),
        k < spans.len() ==> spans[k].get_bool("is_primary"@) == Some(true),
    ensures
        first_primary(spans, from) == if k < spans.len() {
            Some(spans[k])
        } else {
            None
        },
    decreases k - from,
{
    if from < k {
        assert(spans[from].get_bool("is_primary"@) != Some(true));
        primary_is_first(spans, from + 1, k);
    }
}

proof fn help_is_first(children: Seq<JsonView>, from: int, k: int)
    requires
        0 <= from <= k <= children.len(),
        forall|j: int|
            from <= j < k ==> (#[trigger] children[j]).get_str("level"@) != Some("help"@),
        k < children.len() ==> children[k].get_str("level"@) == Some("help"@),
    ensures
        first_help(children, from) == if k < children.len() {
            Some(children[k])
        } else {
            None
        },
    decreases k - from,
{
    if from < k {
        assert(children[from].get_str("level"@) != Some("help"@));
        help_is_first(children, from + 1, k);
    }
}

/// A finding is known by its view in all of its fields, and a list of findings by
/// those of its members in order.
pub proof fn findings_are_viewed_whole(
    finding: LintFinding,
    message: LintMessage,
    findings: Seq<LintFinding>,
    i: int,
)
    ensures
        finding@.name == finding.name@,
        finding@.level == finding.level@,
        finding@.file == finding.file@,
        finding@.span.line_start == finding.span.line_start,
        finding@.span.line_end == finding.span.line_end,
        finding@.span.column_start == finding.span.column_start,
        finding@.span.column_end == finding.span.column_end,
        finding@.message == finding.message@,
        match finding.help {
            Some(text) => finding@.help == Some(text@),
            None => finding@.help is None,
        },
        match finding.suggestion {
            Some(text) => finding@.suggestion == Some(text@),
            None => finding@.suggestion is None,
        },
        message@.finding == message.finding@,
        message@.rendered == message.rendered@,
        optional_message(Some(message)) == Some(message@),
        optional_message(None) is None,
        finding_views(findings).len() == findings.len(),
        0 <= i < findings.len() ==> finding_views(findings)[i] == findings[i]@,
{
}

} // verus!
