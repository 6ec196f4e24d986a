//! A run of the linter: which findings are reported, in which form, and with
//! which exit code the run ends.

use vstd::hash_set::StringHashSet;
use vstd::prelude::*;

use crate::findings::{
    finding_views, line_message, lint_message, optional_message, LintFinding, LintFindingView,
    LintMessage,
};
use crate::json::{parse, parsed};
use crate::text::same_text;

verus! {

/// The files that may be reported on, by their canonical paths.
pub struct AllowedFiles {
    paths: StringHashSet,
}

impl View for AllowedFiles {
    type V = Set<Seq<char>>;

    closed spec fn view(&self) -> Set<Seq<char>> {
        self.paths@
    }
}

impl AllowedFiles {
    pub fn new() -> (allowed: AllowedFiles)
        ensures
            allowed@ == Set::<Seq<char>>::empty(),
    {
        AllowedFiles { paths: StringHashSet::new() }
    }

    /// Allows the file with the canonical path `path`.
    pub fn insert(&mut self, path: String)
        ensures
            final(self)@ == old(self)@.insert(path@),
    {
        self.paths.insert(path);
    }

    /// Whether the file with the canonical path `path` is allowed.
    pub fn contains(&self, path: &str) -> (found: bool)
        ensures
            found == self@.contains(path@),
    {
        self.paths.contains(path)
    }
}

/// What a walk over the files that are not ignored has come across: whether it
/// is a file, and its canonical path, each where it could be found out.
pub struct WalkEntry {
    pub is_file: Option<bool>,
    pub canonical: Option<String>,
}

/// Whether a walk has come across the file with the canonical path `path`.
pub open spec fn file_walked(entry: Option<WalkEntry>, path: Seq<char>) -> bool {
    match entry {
        Some(entry) => {
            &&& entry.is_file == Some(true)
            &&& entry.canonical matches Some(canonical)
            &&& canonical@ == path
        },
        None => false,
    }
}

/// The canonical paths of the files among what a walk has come across. What
/// could not be read, is no file, or has no canonical path is left out.
pub open spec fn walked_files(entries: Seq<Option<WalkEntry>>) -> Set<Seq<char>>
    decreases entries.len(),
{
    if entries.len() == 0 {
        Set::empty()
    } else {
        let earlier = walked_files(entries.drop_last());
        match entries.last() {
            Some(WalkEntry { is_file: Some(true), canonical: Some(path) }) => earlier.insert(path@),
            _ => earlier,
        }
    }
}

/// The files among what a walk has come across.
pub fn allowed_files(entries: &Vec<Option<WalkEntry>>) -> (allowed: AllowedFiles)
    ensures
        allowed@ == walked_files(entries@),
{
    let mut allowed = AllowedFiles::new();
    for i in 0..entries.len()
        invariant
            allowed@ == walked_files(entries@.take(i as int)),
    {
        proof {
            let seen = entries@.take(i + 1);
            assert(seen.drop_last() =~= entries@.take(i as int));
            assert(seen.last() == entries@[i as int]);
        }
        if let Some(entry) = &entries[i] {
            let is_file = match entry.is_file {
                Some(is_file) => is_file,
                None => false,
            };
            if is_file {
                if let Some(canonical) = &entry.canonical {
                    allowed.insert(canonical.clone());
                }
            }
        }
    }
    assert(entries@.take(entries@.len() as int) =~= entries@);
    allowed
}

/// Whether a finding in `file` is reported: where the file is allowed. If `file`
/// is empty or has no canonical path, the finding is kept: a filtering bug must
/// never silently swallow a real diagnostic.
pub open spec fn reportable(
    file: Seq<char>,
    canonical: Option<Seq<char>>,
    allowed: Set<Seq<char>>,
) -> bool {
    ||| file.len() == 0
    ||| match canonical {
        Some(path) => allowed.contains(path),
        None => true,
    }
}

/// The text of an optional path.
pub open spec fn optional_path(path: Option<&str>) -> Option<Seq<char>> {
    match path {
        Some(path) => Some(path@),
        None => None,
    }
}

/// Whether a finding in `file`, whose canonical path is `canonical`, is
/// reported.
pub fn is_reportable(file: &str, canonical: Option<&str>, allowed: &AllowedFiles) -> (kept: bool)
    ensures
        kept == reportable(file@, optional_path(canonical), allowed@),
{
    if file.is_empty() {
        return true;
    }
    match canonical {
        Some(path) => allowed.contains(path),
        None => true,
    }
}

/// The forms in which findings are reported.
#[derive(Debug, Clone, Copy, PartialEq, Eq, Structural)]
pub enum OutputFormat {
    Text,
    Json,
    Sarif,
}

/// What to print for a finding when it is recorded.
pub enum Output {
    Nothing,
    /// The finding that was recorded last, as JSON.
    Finding,
    /// The text in which the compiler shows the finding.
    Rendered(String),
}

/// Whether a finding of the level `level` makes the run fail.
pub open spec fn is_failure(level: Seq<char>) -> bool {
    level == "error"@ || level == "deny"@
}

/// Whether a finding of the level `level` makes the run fail.
pub fn fails(level: &str) -> (failure: bool)
    ensures
        failure == is_failure(level@),
{
    same_text(level, "error") || same_text(level, "deny")
}

/// A run of the linter.
pub struct Session {
    pub format: OutputFormat,
    pub fix: bool,
    pub allowed: AllowedFiles,
    pub findings: Vec<LintFinding>,
    pub highest_exit_code: i32,
}

/// The exit code that a list of findings asks for.
pub open spec fn findings_exit_code(findings: Seq<LintFindingView>) -> i32 {
    if exists|i: int| 0 <= i < findings.len() && is_failure((#[trigger] findings[i]).level) {
        1
    } else {
        0
    }
}

/// The exit code of a run: that of the build, where it failed (one, where it
/// has none), and otherwise that of the findings.
pub open spec fn run_exit_code(success: bool, code: Option<i32>, highest: i32) -> i32 {
    if !success {
        match code {
            Some(code) => code,
            None => 1,
        }
    } else {
        highest
    }
}

impl Session {
    /// The exit code is the one that the findings ask for.
    pub open spec fn well_formed(self) -> bool {
        self.highest_exit_code == findings_exit_code(finding_views(self.findings@))
    }

    pub fn new(format: OutputFormat, fix: bool, allowed: AllowedFiles) -> (session: Session)
        ensures
            session.well_formed(),
            session.format == format,
            session.fix == fix,
            session.allowed == allowed,
            session.findings@ == Seq::<LintFinding>::empty(),
            session.highest_exit_code == 0,
    {
        Session { format, fix, allowed, findings: Vec::new(), highest_exit_code: 0 }
    }

    /// Reads a line of the compiler's output: the finding in it, if the line is
    /// a JSON document with one.
    pub fn read_line(&self, line: &str) -> (found: Option<LintMessage>)
        ensures
            optional_message(found) == match parsed(line@) {
                Some(json) => line_message(json, self.fix),
                None => None,
            },
    {
        match parse(line) {
            Some(json) => lint_message(&json, self.fix),
            None => None,
        }
    }

    /// Records a finding in a file whose canonical path is `canonical`, if it is
    /// to be reported, and says what to print for it.
    pub fn record(&mut self, message: LintMessage, canonical: Option<&str>) -> (output: Output)
        requires
            old(self).well_formed(),
        ensures
            final(self).well_formed(),
            final(self).format == old(self).format,
            final(self).fix == old(self).fix,
            final(self).allowed == old(self).allowed,
            ({
                let kept = reportable(
                    message.finding.file@,
                    optional_path(canonical),
                    old(self).allowed@,
                );
                &&& final(self).findings@ == if kept {
                    old(self).findings@.push(message.finding)
                } else {
                    old(self).findings@
                }
                &&& match output {
                    Output::Nothing => !kept || old(self).format == OutputFormat::Sarif,
                    Output::Finding => kept && old(self).format == OutputFormat::Json,
                    Output::Rendered(text) => kept && old(self).format == OutputFormat::Text && text
                        == message.rendered,
                }
            }),
    {
        if !is_reportable(message.finding.file.as_str(), canonical, &self.allowed) {
            return Output::Nothing;
        }
        let ghost before = finding_views(self.findings@);
        let failure = fails(message.finding.level.as_str());
        if failure {
            self.highest_exit_code = 1;
        }
        let ghost finding = message.finding@;
        self.findings.push(message.finding);
        proof {
            let after = finding_views(self.findings@);
            assert(after =~= before.push(finding));
            if failure {
                assert(is_failure(after[after.len() - 1].level));
            } else {
                assert forall|i: int| 0 <= i < after.len() && is_failure(
                    (#[trigger] after[i]).level,
                ) implies findings_exit_code(before) == 1 by {
                    assert(before[i] == after[i]);
                }
                assert forall|i: int| 0 <= i < before.len() && is_failure(
                    (#[trigger] before[i]).level,
                ) implies findings_exit_code(after) == 1 by {
                    assert(before[i] == after[i]);
                }
            }
        }
        match self.format {
            OutputFormat::Json => Output::Finding,
            OutputFormat::Sarif => Output::Nothing,
            OutputFormat::Text => Output::Rendered(message.rendered),
        }
    }

    /// The exit code of the run, after a build that succeeded or failed with
    /// `code`.
    pub fn exit_code(&self, success: bool, code: Option<i32>) -> (exit: i32)
        ensures
            exit == run_exit_code(success, code, self.highest_exit_code),
    {
        if !success {
            match code {
                Some(code) => code,
                None => 1,
            }
        } else {
            self.highest_exit_code
        }
    }
}

/// A finding without a file, or in a file without a canonical path, is reported
/// whatever files are allowed.
pub proof fn unresolved_findings_are_kept(
    file: Seq<char>,
    canonical: Option<Seq<char>>,
    allowed: Set<Seq<char>>,
)
    requires
        file.len() == 0 || canonical is None,
    ensures
        reportable(file, canonical, allowed),
{
}

/// A file is allowed exactly where the walk has come across it.
pub proof fn walked_files_are_allowed(entries: Seq<Option<WalkEntry>>, path: Seq<char>)
    ensures
        walked_files(entries).contains(path) <==> exists|i: int|
            0 <= i < entries.len() && file_walked(#[trigger] entries[i], path),
    decreases entries.len(),
{
    if entries.len() > 0 {
        let front = entries.drop_last();
        walked_files_are_allowed(front, path);
        if walked_files(front).contains(path) {
            let i = choose|i: int| 0 <= i < front.len() && file_walked(#[trigger] front[i], path);
            assert(file_walked(entries[i], path));
        }
        if file_walked(entries.last(), path) {
            assert(file_walked(entries[entries.len() - 1], path));
        }
        if exists|i: int| 0 <= i < entries.len() && file_walked(#[trigger] entries[i], path) {
            let i = choose|i: int| 0 <= i < entries.len() && file_walked(#[trigger] entries[i], path);
            if i < front.len() {
                assert(file_walked(front[i], path));
            }
        }
    }
}

/// A finding in a file with a canonical path is reported exactly where the walk
/// over the files that are not ignored has come across that file.
pub proof fn ignored_files_are_not_reported(
    entries: Seq<Option<WalkEntry>>,
    file: Seq<char>,
    path: Seq<char>,
)
    requires
        file.len() > 0,
    ensures
        reportable(file, Some(path), walked_files(entries)) <==> exists|i: int|
            0 <= i < entries.len() && file_walked(#[trigger] entries[i], path),
{
    walked_files_are_allowed(entries, path);
}

/// A further finding never lowers the exit code.
pub proof fn exit_code_never_falls(findings: Seq<LintFindingView>, finding: LintFindingView)
    ensures
        findings_exit_code(findings) <= findings_exit_code(findings.push(finding)),
{
    let after = findings.push(finding);
    if exists|i: int| 0 <= i < findings.len() && is_failure((#[trigger] findings[i]).level) {
        let i = choose|i: int| 0 <= i < findings.len() && is_failure((#[trigger] findings[i]).level);
        assert(is_failure(after[i].level));
    }
}

/// After a build that succeeded, a run fails exactly where a reported finding
/// has the level `error` or `deny`, and then with the exit code one.
pub proof fn failing_findings_fail_the_run(session: Session, code: Option<i32>)
    requires
        session.well_formed(),
    ensures
        run_exit_code(true, code, session.highest_exit_code) == if exists|i: int|
            0 <= i < session.findings@.len() && is_failure(
                (#[trigger] session.findings@[i]).level@,
            ) {
            1int
        } else {
            0int
        },
{
    let views = finding_views(session.findings@);
    assert forall|i: int| 0 <= i < views.len() implies (#[trigger] views[i]).level
        == session.findings@[i].level@ by {}
    if exists|i: int|
        0 <= i < session.findings@.len() && is_failure((#[trigger] session.findings@[i]).level@) {
        let i = choose|i: int|
            0 <= i < session.findings@.len() && is_failure((#[trigger] session.findings@[i]).level@);
        assert(is_failure(views[i].level));
    }
}

/// The levels that make a run fail are these two.
pub proof fn errors_and_denials_fail(level: Seq<char>)
    ensures
        is_failure(level) <==> level == "error"@ || level == "deny"@,
{
}

/// The findings ask for the exit code one exactly where the level of one of them
/// is `error` or `deny`, and for zero otherwise.
pub proof fn findings_ask_for_one_or_zero(findings: Seq<LintFindingView>)
    ensures
        findings_exit_code(findings) == 1 <==> exists|i: int|
            0 <= i < findings.len() && ((#[trigger] findings[i]).level == "error"@
                || findings[i].level == "deny"@),
        findings_exit_code(findings) == 0 || findings_exit_code(findings) == 1,
{
}

/// A build that failed decides on the exit code: its own, or one where it has
/// none. Otherwise the findings decide.
pub proof fn a_failed_build_decides(code: Option<i32>, own: i32, highest: i32)
    ensures
        run_exit_code(false, Some(own), highest) == own,
        run_exit_code(false, None, highest) == 1,
        run_exit_code(true, code, highest) == highest,
{
}

/// A finding in a file with a canonical path is reported exactly where that path
/// is allowed.
pub proof fn allowed_files_are_reported(
    file: Seq<char>,
    path: Seq<char>,
    allowed: Set<Seq<char>>,
)
    requires
        file.len() > 0,
    ensures
        reportable(file, Some(path), allowed) <==> allowed.contains(path),
{
}

/// What counts as a file that a walk has come across: what could be read, is a
/// file, and has the canonical path.
pub proof fn files_are_walked_by_their_paths(entry: WalkEntry, path: Seq<char>)
    ensures
        !file_walked(None, path),
        file_walked(Some(entry), path) <==> entry.is_file == Some(true) && (entry.canonical matches Some(
            canonical,
        ) && canonical@ == path),
{
}

/// An optional path is known by its text.
pub proof fn paths_are_viewed_whole(path: &str)
    ensures
        optional_path(Some(path)) == Some(path@),
        optional_path(None) is None,
{
}

} // verus!
