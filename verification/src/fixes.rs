//! Fixes: taking them out of the advice of a lint, and applying them to a file.

use vstd::prelude::*;

use crate::findings::{finding_views, LintFinding, LintFindingView};
use crate::passes::symbols::macro_call;
use crate::text::{
    a_text_without_newline_is_one_line, chars_of, find, find_from, find_from_is_first,
    is_plain_line, join, join_strings, joined_lines_are_split_again, joined_lines_are_the_text,
    joining_goes_list_by_list, lines, lines_end_at_newlines, occurs_at, optional_text, same_text,
    slice_of, split_lines, texts,
};

verus! {

/// The replacement that the advice `help` of the lint `lint_name` holds. Only
/// the lint on short symbols has one: from the first `symbol_short!(` on up to
/// the next closing parenthesis.
pub open spec fn suggested(help: Option<Seq<char>>, lint_name: Seq<char>) -> Option<Seq<char>> {
    match help {
        Some(text) => {
            if lint_name == "symbol_new_for_short_literal"@ {
                match find_from(text, "symbol_short!("@, 0) {
                    Some(start) => match find_from(text, seq![')'], start) {
                        Some(close) => Some(text.subrange(start, close + 1)),
                        None => None,
                    },
                    None => None,
                }
            } else {
                None
            }
        },
        None => None,
    }
}

/// The replacement that the advice `help` of the lint `lint_name` holds.
pub fn extract_suggestion(help: &Option<String>, lint_name: &str) -> (suggestion: Option<String>)
    ensures
        optional_text(suggestion) == suggested(optional_text(*help), lint_name@),
{
    let help_text = match help {
        Some(text) => text,
        None => {
            return None;
        },
    };
    if !same_text(lint_name, "symbol_new_for_short_literal") {
        return None;
    }
    let chars = chars_of(help_text.as_str());
    let opening = chars_of("symbol_short!(");
    match find(&chars, &opening, 0) {
        Some(start) => {
            proof {
                find_from_is_first(chars@, opening@, 0);
                find_from_is_first(chars@, seq![')'], start as int);
            }
            let closing: Vec<char> = vec![')'];
            assert(closing@ =~= seq![')']);
            match find(&chars, &closing, start) {
                Some(close) => Some(slice_of(&chars, start, close + 1)),
                None => None,
            }
        },
        None => None,
    }
}

/// A replacement for a line of a file; lines count from one.
pub struct Edit {
    pub line: usize,
    pub message: String,
    pub suggestion: String,
}

/// An edit with its texts as sequences.
pub struct EditView {
    pub line: usize,
    pub message: Seq<char>,
    pub suggestion: Seq<char>,
}

impl View for Edit {
    type V = EditView;

    open spec fn view(&self) -> EditView {
        EditView { line: self.line, message: self.message@, suggestion: self.suggestion@ }
    }
}

/// The edits of one file.
pub struct FileEdits {
    pub file: String,
    pub edits: Vec<Edit>,
}

/// The views of a list of edits.
pub open spec fn edit_views(edits: Seq<Edit>) -> Seq<EditView> {
    edits.map_values(|edit: Edit| edit@)
}

/// Whether a finding comes with a replacement for a file.
pub open spec fn fixable(finding: LintFindingView) -> bool {
    finding.suggestion is Some && finding.file.len() > 0
}

/// The edit that a fixable finding asks for.
pub open spec fn edit_of(finding: LintFindingView) -> EditView {
    EditView {
        line: finding.span.line_start,
        message: finding.message,
        suggestion: finding.suggestion->0,
    }
}

/// The edits that `findings` ask for in `file`, in order.
pub open spec fn edits_for(findings: Seq<LintFindingView>, file: Seq<char>) -> Seq<EditView>
    decreases findings.len(),
{
    if findings.len() == 0 {
        Seq::empty()
    } else {
        let earlier = edits_for(findings.drop_last(), file);
        if fixable(findings.last()) && findings.last().file == file {
            earlier.push(edit_of(findings.last()))
        } else {
            earlier
        }
    }
}

/// The files that `findings` ask for edits in, in the order in which they first
/// occur.
pub open spec fn files_to_fix(findings: Seq<LintFindingView>) -> Seq<Seq<char>>
    decreases findings.len(),
{
    if findings.len() == 0 {
        Seq::empty()
    } else {
        let earlier = files_to_fix(findings.drop_last());
        if fixable(findings.last()) && !earlier.contains(findings.last().file) {
            earlier.push(findings.last().file)
        } else {
            earlier
        }
    }
}

/// Whether `plan` holds, for each file that `findings` ask for edits in, those
/// edits.
pub open spec fn plans(plan: Seq<FileEdits>, findings: Seq<LintFindingView>) -> bool {
    let files = files_to_fix(findings);
    &&& plan.len() == files.len()
    &&& forall|i: int|
        0 <= i < plan.len() ==> (#[trigger] plan[i]).file@ == files[i] && edit_views(
            plan[i].edits@,
        ) == edits_for(findings, files[i])
}

fn position_of(plan: &Vec<FileEdits>, file: &str) -> (position: Option<usize>)
    ensures
        match position {
            Some(i) => i < plan@.len() && plan@[i as int].file@ == file@,
            None => forall|i: int| 0 <= i < plan@.len() ==> (#[trigger] plan@[i]).file@ != file@,
        },
{
    for i in 0..plan.len()
        invariant
            forall|j: int| 0 <= j < i ==> (#[trigger] plan@[j]).file@ != file@,
    {
        if same_text(plan[i].file.as_str(), file) {
            return Some(i);
        }
    }
    None
}

/// Groups the edits that `findings` ask for by file.
pub fn plan_fixes(findings: &Vec<LintFinding>) -> (plan: Vec<FileEdits>)
    ensures
        plans(plan@, finding_views(findings@)),
{
    let mut plan: Vec<FileEdits> = Vec::new();
    let ghost views = finding_views(findings@);
    for i in 0..findings.len()
        invariant
            views == finding_views(findings@),
            plans(plan@, views.take(i as int)),
    {
        let finding = &findings[i];
        let ghost before = views.take(i as int);
        let ghost after = views.take(i + 1);
        let ghost old_plan = plan@;
        proof {
            assert(after.drop_last() =~= before);
            assert(after.last() == finding@);
            files_are_distinct(before);
        }
        if let Some(suggestion) = &finding.suggestion {
            if !finding.file.as_str().is_empty() {
                let edit = Edit {
                    line: finding.span.line_start,
                    message: finding.message.clone(),
                    suggestion: suggestion.clone(),
                };
                let ghost edit_view = edit@;
                assert(edit_view == edit_of(finding@));
                match position_of(&plan, finding.file.as_str()) {
                    Some(k) => {
                        plan[k].edits.push(edit);
                        proof {
                            let files = files_to_fix(before);
                            assert(files[k as int] == finding@.file);
                            assert(files.contains(finding@.file));
                            assert(edit_views(plan@[k as int].edits@) =~= edit_views(
                                old_plan[k as int].edits@,
                            ).push(edit_view));
                            assert forall|j: int| 0 <= j < plan@.len() implies (#[trigger] plan@[
                            j]).file@ == files[j] && edit_views(plan@[j].edits@) == edits_for(
                                after,
                                files[j],
                            ) by {
                                if j != k {
                                    assert(plan@[j] == old_plan[j]);
                                    assert(files[j] != files[k as int]);
                                }
                            }
                        }
                    },
                    None => {
                        let mut edits: Vec<Edit> = Vec::new();
                        edits.push(edit);
                        proof {
                            let files = files_to_fix(before);
                            assert forall|j: int| 0 <= j < files.len() implies files[j]
                                != finding@.file by {
                                assert(old_plan[j].file@ == files[j]);
                            }
                            assert(!files.contains(finding@.file));
                            no_edits_for_other_files(before, finding@.file);
                            assert(edit_views(edits@) =~= seq![edit_view]);
                            assert(edits_for(after, finding@.file) =~= seq![edit_view]);
                        }
                        plan.push(FileEdits { file: finding.file.clone(), edits });
                        proof {
                            let files = files_to_fix(after);
                            assert forall|j: int| 0 <= j < plan@.len() implies (#[trigger] plan@[
                            j]).file@ == files[j] && edit_views(plan@[j].edits@) == edits_for(
                                after,
                                files[j],
                            ) by {
                                if j < old_plan.len() {
                                    assert(plan@[j] == old_plan[j]);
                                }
                            }
                        }
                    },
                }
            }
        }
        assert(plans(plan@, after));
    }
    assert(views.take(findings@.len() as int) =~= views);
    plan
}

/// No file is planned for twice.
pub proof fn files_are_distinct(findings: Seq<LintFindingView>)
    ensures
        files_to_fix(findings).no_duplicates(),
    decreases findings.len(),
{
    if findings.len() > 0 {
        files_are_distinct(findings.drop_last());
    }
}

/// A file that is not planned for has no edits.
pub proof fn no_edits_for_other_files(findings: Seq<LintFindingView>, file: Seq<char>)
    requires
        !files_to_fix(findings).contains(file),
    ensures
        edits_for(findings, file) == Seq::<EditView>::empty(),
    decreases findings.len(),
{
    if findings.len() > 0 {
        let front = findings.drop_last();
        let files = files_to_fix(findings);
        let earlier = files_to_fix(front);
        if earlier.contains(file) {
            let k = choose|k: int| 0 <= k < earlier.len() && earlier[k] == file;
            assert(files[k] == file);
        }
        no_edits_for_other_files(front, file);
        if fixable(findings.last()) && findings.last().file == file {
            assert(files[files.len() - 1] == file);
        }
    }
}

/// Every fixable finding is planned for: its file is planned for, and its edit
/// is among the edits of that file.
pub proof fn every_fix_is_planned(findings: Seq<LintFindingView>, i: int)
    requires
        0 <= i < findings.len(),
        fixable(findings[i]),
    ensures
        files_to_fix(findings).contains(findings[i].file),
        edits_for(findings, findings[i].file).contains(edit_of(findings[i])),
    decreases findings.len(),
{
    let front = findings.drop_last();
    let file = findings[i].file;
    let files = files_to_fix(findings);
    let edits = edits_for(findings, file);
    let earlier_files = files_to_fix(front);
    let earlier_edits = edits_for(front, file);
    if i < front.len() {
        assert(front[i] == findings[i]);
        every_fix_is_planned(front, i);
        let k = choose|k: int| 0 <= k < earlier_edits.len() && earlier_edits[k] == edit_of(findings[i]);
        assert(edits[k] == edit_of(findings[i]));
    } else {
        assert(edits[edits.len() - 1] == edit_of(findings[i]));
    }
    if earlier_files.contains(file) {
        let k = choose|k: int| 0 <= k < earlier_files.len() && earlier_files[k] == file;
        assert(files[k] == file);
    } else {
        assert(files[files.len() - 1] == file);
    }
}

/// Only fixable findings are planned for: each file that is planned for is the
/// file of one of them.
pub proof fn only_fixes_are_planned(findings: Seq<LintFindingView>, k: int)
    requires
        0 <= k < files_to_fix(findings).len(),
    ensures
        exists|i: int|
            0 <= i < findings.len() && fixable(#[trigger] findings[i]) && findings[i].file
                == files_to_fix(findings)[k],
    decreases findings.len(),
{
    let front = findings.drop_last();
    let file = files_to_fix(findings)[k];
    if k < files_to_fix(front).len() {
        only_fixes_are_planned(front, k);
        let i = choose|i: int|
            0 <= i < front.len() && fixable(#[trigger] front[i]) && front[i].file == file;
        assert(findings[i] == front[i]);
    } else {
        assert(findings[findings.len() - 1].file == file);
    }
}

/// Each edit of a file is that of a fixable finding in it.
pub proof fn edits_come_from_findings(findings: Seq<LintFindingView>, file: Seq<char>, k: int)
    requires
        0 <= k < edits_for(findings, file).len(),
    ensures
        exists|i: int|
            {
                &&& 0 <= i < findings.len()
                &&& fixable(#[trigger] findings[i])
                &&& findings[i].file == file
                &&& edits_for(findings, file)[k] == edit_of(findings[i])
            },
    decreases findings.len(),
{
    let front = findings.drop_last();
    let edit = edits_for(findings, file)[k];
    if k < edits_for(front, file).len() {
        edits_come_from_findings(front, file, k);
        let i = choose|i: int|
            {
                &&& 0 <= i < front.len()
                &&& fixable(#[trigger] front[i])
                &&& front[i].file == file
                &&& edit == edit_of(front[i])
            };
        assert(findings[i] == front[i]);
    } else {
        assert(edit_of(findings[findings.len() - 1]) == edit);
    }
}

/// `line` with its first call of `Symbol::new`, up to the next closing
/// parenthesis, replaced by `suggestion`.
pub open spec fn edited_line(line: Seq<char>, suggestion: Seq<char>) -> Seq<char> {
    match find_from(line, "Symbol::new"@, 0) {
        Some(start) => match find_from(line, seq![')'], start) {
            Some(close) => line.take(start) + suggestion + line.skip(close + 1),
            None => line,
        },
        None => line,
    }
}

/// `file_lines` with `edits` applied one after the other; an edit of a line that
/// there is not changes nothing.
pub open spec fn edited(file_lines: Seq<Seq<char>>, edits: Seq<EditView>) -> Seq<Seq<char>>
    decreases edits.len(),
{
    if edits.len() == 0 {
        file_lines
    } else {
        let earlier = edited(file_lines, edits.drop_last());
        let edit = edits.last();
        if 1 <= edit.line <= earlier.len() {
            earlier.update(edit.line - 1, edited_line(earlier[edit.line - 1], edit.suggestion))
        } else {
            earlier
        }
    }
}

/// `content` with `edits` applied, its lines joined by `"\n"`.
pub open spec fn fixed(content: Seq<char>, edits: Seq<EditView>) -> Seq<char> {
    join(edited(lines(content), edits), "\n"@)
}

fn edit_line(line: &str, suggestion: &str) -> (edited: String)
    ensures
        edited@ == edited_line(line@, suggestion@),
{
    let chars = chars_of(line);
    let call = chars_of("Symbol::new");
    if let Some(start) = find(&chars, &call, 0) {
        proof {
            find_from_is_first(chars@, call@, 0);
            find_from_is_first(chars@, seq![')'], start as int);
        }
        let closing: Vec<char> = vec![')'];
        assert(closing@ =~= seq![')']);
        if let Some(close) = find(&chars, &closing, start) {
            let mut edited = slice_of(&chars, 0, start);
            edited.append(suggestion);
            let rest = slice_of(&chars, close + 1, chars.len());
            edited.append(rest.as_str());
            assert(edited@ =~= edited_line(line@, suggestion@));
            return edited;
        }
    }
    line.to_string()
}

/// Applies `edits` to the text of a file.
pub fn apply_edits(content: &str, edits: &Vec<Edit>) -> (new_content: String)
    ensures
        new_content@ == fixed(content@, edit_views(edits@)),
{
    let mut file_lines = split_lines(content);
    let ghost views = edit_views(edits@);
    for i in 0..edits.len()
        invariant
            views == edit_views(edits@),
            texts(file_lines@) == edited(lines(content@), views.take(i as int)),
    {
        let edit = &edits[i];
        let ghost before = texts(file_lines@);
        proof {
            let seen = views.take(i + 1);
            assert(seen.drop_last() =~= views.take(i as int));
            assert(seen.last() == edit@);
        }
        if edit.line > 0 && edit.line <= file_lines.len() {
            let new_line = edit_line(
                file_lines[edit.line - 1].as_str(),
                edit.suggestion.as_str(),
            );
            assert(before[edit.line - 1] == file_lines@[edit.line - 1]@);
            file_lines.set(edit.line - 1, new_line);
            assert(texts(file_lines@) =~= before.update(
                edit.line - 1,
                edited_line(before[edit.line - 1], edit.suggestion@),
            ));
        }
    }
    assert(views.take(edits@.len() as int) =~= views);
    join_strings(&file_lines, "\n")
}

/// Edits neither add nor remove lines, and leave alone every line that none of
/// them is for.
pub proof fn edits_keep_other_lines(
    file_lines: Seq<Seq<char>>,
    edits: Seq<EditView>,
    line: int,
)
    requires
        1 <= line <= file_lines.len(),
        forall|i: int| 0 <= i < edits.len() ==> (#[trigger] edits[i]).line != line,
    ensures
        edited(file_lines, edits).len() == file_lines.len(),
        edited(file_lines, edits)[line - 1] == file_lines[line - 1],
    decreases edits.len(),
{
    if edits.len() > 0 {
        let front = edits.drop_last();
        assert forall|i: int| 0 <= i < front.len() implies (#[trigger] front[i]).line != line by {
            assert(front[i] == edits[i]);
        }
        edits_keep_other_lines(file_lines, front, line);
        assert(edits[edits.len() - 1].line != line);
    }
}

/// A line without a call of `Symbol::new` is left as it is.
pub proof fn lines_without_a_call_are_kept(line: Seq<char>, suggestion: Seq<char>)
    requires
        forall|i: int| !occurs_at(line, "Symbol::new"@, i),
    ensures
        edited_line(line, suggestion) == line,
{
    find_from_is_first(line, "Symbol::new"@, 0);
}

/// In a line, a call of `Symbol::new` with no closing parenthesis before its end
/// is replaced as a whole, where no such call begins before it; what stands
/// around it is kept.
pub proof fn calls_are_replaced_whole(
    before: Seq<char>,
    arguments: Seq<char>,
    after: Seq<char>,
    suggestion: Seq<char>,
)
    requires
        !arguments.contains(')'),
        forall|i: int|
            0 <= i < before.len() ==> !occurs_at(
                before + "Symbol::new"@ + arguments + seq![')'] + after,
                "Symbol::new"@,
                i,
            ),
    ensures
        edited_line(before + "Symbol::new"@ + arguments + seq![')'] + after, suggestion) == before
            + suggestion + after,
{
    let call = "Symbol::new"@;
    let line = before + call + arguments + seq![')'] + after;
    let at = before.len() as int;
    let close = at + call.len() + arguments.len();
    reveal_strlit("Symbol::new");
    assert(line.subrange(at, at + call.len()) =~= call);
    assert(occurs_at(line, call, at));
    find_from_is_first(line, call, 0);
    assert(find_from(line, call, 0) == Some(at));
    assert(line.subrange(close, close + 1) =~= seq![')']);
    assert(occurs_at(line, seq![')'], close));
    find_from_is_first(line, seq![')'], at);
    assert forall|i: int| at <= i < close implies !occurs_at(line, seq![')'], i) by {
        if occurs_at(line, seq![')'], i) {
            assert(line.subrange(i, i + 1)[0] == line[i]);
            if i < at + call.len() {
                assert(line[i] == call[i - at]);
            } else {
                assert(line[i] == arguments[i - at - call.len()]);
                assert(arguments.contains(')'));
            }
        }
    }
    assert(find_from(line, seq![')'], at) == Some(close));
    assert(edited_line(line, suggestion) =~= before + suggestion + after);
}

/// Without edits a file stays as it is, but for the newline at its end. Carriage
/// returns are left out: before a newline they are lost.
pub proof fn nothing_to_fix_keeps_the_file(content: Seq<char>)
    requires
        !content.contains('\r'),
    ensures
        fixed(content, Seq::empty()) == if content.len() > 0 && content.last() == '\n' {
            content.drop_last()
        } else {
            content
        },
{
    joined_lines_are_the_text(content);
}

/// What is taken out of the advice is a macro call: it begins with
/// `symbol_short!(`, ends in the only closing parenthesis in it, and stands in
/// the advice.
pub proof fn suggestions_are_macro_calls(help: Seq<char>, lint_name: Seq<char>)
    requires
        suggested(Some(help), lint_name) is Some,
    ensures
        ({
            let suggestion = suggested(Some(help), lint_name)->0;
            &&& occurs_at(suggestion, "symbol_short!("@, 0)
            &&& suggestion.last() == ')'
            &&& forall|i: int|
                0 <= i < suggestion.len() - 1 ==> #[trigger] suggestion[i] != ')'
            &&& exists|at: int| occurs_at(help, suggestion, at)
        }),
{
    let opening = "symbol_short!("@;
    find_from_is_first(help, opening, 0);
    let start = find_from(help, opening, 0)->0;
    find_from_is_first(help, seq![')'], start);
    let close = find_from(help, seq![')'], start)->0;
    let suggestion = suggested(Some(help), lint_name)->0;
    reveal_strlit("symbol_short!(");
    assert(help.subrange(close, close + 1)[0] == ')');
    assert forall|i: int| start <= i < close implies #[trigger] help[i] != ')' by {
        if help[i] == ')' {
            assert(help.subrange(i, i + 1) =~= seq![')']);
            assert(occurs_at(help, seq![')'], i));
        }
    }
    assert(close >= start + opening.len()) by {
        if close < start + opening.len() {
            assert(help.subrange(start, start + opening.len())[close - start] == help[close]);
            assert(opening[close - start] != ')');
        }
    }
    assert(suggestion.subrange(0, opening.len() as int) =~= help.subrange(
        start,
        start + opening.len(),
    ));
    assert(occurs_at(suggestion, opening, 0));
    assert(help.subrange(start, start + suggestion.len()) =~= suggestion);
    assert(occurs_at(help, suggestion, start));
}

/// A macro call that is put into the advice is taken out of it again, where the
/// literal in it holds no closing parenthesis and no macro call begins before.
pub proof fn suggestions_are_recovered(before: Seq<char>, literal: Seq<char>, after: Seq<char>)
    requires
        !literal.contains(')'),
        forall|i: int|
            0 <= i < before.len() ==> !occurs_at(
                before + macro_call(literal) + after,
                "symbol_short!("@,
                i,
            ),
    ensures
        suggested(
            Some(before + macro_call(literal) + after),
            "symbol_new_for_short_literal"@,
        ) == Some(macro_call(literal)),
{
    let help = before + macro_call(literal) + after;
    let opening = "symbol_short!("@;
    let call = macro_call(literal);
    let at = before.len() as int;
    reveal_strlit("symbol_short!(");
    reveal_strlit(")");
    assert(help.subrange(at, at + opening.len()) =~= opening);
    assert(occurs_at(help, opening, at));
    find_from_is_first(help, opening, 0);
    assert(find_from(help, opening, 0) == Some(at));
    let close = at + call.len() - 1;
    assert(help.subrange(close, close + 1) =~= seq![')']);
    assert(occurs_at(help, seq![')'], close));
    find_from_is_first(help, seq![')'], at);
    assert forall|i: int| at <= i < close implies !occurs_at(help, seq![')'], i) by {
        if occurs_at(help, seq![')'], i) {
            assert(help.subrange(i, i + 1)[0] == help[i]);
            if i < at + opening.len() {
                assert(help[i] == opening[i - at]);
            } else {
                assert(help[i] == literal[i - at - opening.len()]);
                assert(literal.contains(')'));
            }
        }
    }
    assert(find_from(help, seq![')'], at) == Some(close));
    assert(help.subrange(at, close + 1) =~= call);
}

/// A replacement is found exactly where the lint is the one on short symbols and
/// its advice holds `symbol_short!(` with a closing parenthesis somewhere behind
/// the first of them.
pub proof fn suggestions_need_a_macro_call(help: Option<Seq<char>>, lint_name: Seq<char>)
    ensures
        suggested(help, lint_name) is Some <==> ({
            &&& lint_name == "symbol_new_for_short_literal"@
            &&& help matches Some(text)
            &&& exists|start: int, close: int|
                {
                    &&& #[trigger] occurs_at(text, "symbol_short!("@, start)
                    &&& forall|i: int| 0 <= i < start ==> !occurs_at(text, "symbol_short!("@, i)
                    &&& start <= close < text.len()
                    &&& #[trigger] text[close] == ')'
                }
        }),
{
    let opening = "symbol_short!("@;
    if let Some(text) = help {
        find_from_is_first(text, opening, 0);
        if let Some(start) = find_from(text, opening, 0) {
            find_from_is_first(text, seq![')'], start);
            if let Some(close) = find_from(text, seq![')'], start) {
                assert(text.subrange(close, close + 1)[0] == ')');
                assert(text[close] == ')');
                assert(occurs_at(text, opening, start));
            } else {
                assert forall|close: int| start <= close < text.len() implies #[trigger] text[close]
                    != ')' by {
                    if text[close] == ')' {
                        assert(text.subrange(close, close + 1) =~= seq![')']);
                        assert(occurs_at(text, seq![')'], close));
                    }
                }
            }
        }
    }
}

/// The macro call that a literal is put into.
pub proof fn macro_calls_are_written_so(literal: Seq<char>)
    ensures
        macro_call(literal) == "symbol_short!("@ + literal + seq![')'],
{
    reveal_strlit(")");
    assert(")"@ =~= seq![')']);
}

/// A call of `Symbol::new` with no closing parenthesis behind it is left as it is.
pub proof fn open_calls_are_kept(line: Seq<char>, suggestion: Seq<char>, start: int)
    requires
        occurs_at(line, "Symbol::new"@, start),
        forall|i: int| 0 <= i < start ==> !occurs_at(line, "Symbol::new"@, i),
        forall|i: int| start <= i < line.len() ==> #[trigger] line[i] != ')',
    ensures
        edited_line(line, suggestion) == line,
{
    find_from_is_first(line, "Symbol::new"@, 0);
    find_from_is_first(line, seq![')'], start);
    if let Some(close) = find_from(line, seq![')'], start) {
        assert(line.subrange(close, close + 1)[0] == ')');
        assert(line[close] == ')');
    }
}

/// Edits are applied one after the other: none changes nothing, one changes the
/// line that it is for, if there is one, and of two lists the second is applied
/// to what the first has made.
pub proof fn edits_are_applied_in_order(
    file_lines: Seq<Seq<char>>,
    edit: EditView,
    left: Seq<EditView>,
    right: Seq<EditView>,
)
    ensures
        edited(file_lines, Seq::empty()) == file_lines,
        1 <= edit.line <= file_lines.len() ==> edited(file_lines, seq![edit]) == file_lines.take(
            edit.line - 1,
        ) + seq![edited_line(file_lines[edit.line - 1], edit.suggestion)] + file_lines.skip(
            edit.line as int,
        ),
        !(1 <= edit.line <= file_lines.len()) ==> edited(file_lines, seq![edit]) == file_lines,
        edited(file_lines, left + right) == edited(edited(file_lines, left), right),
    decreases right.len(),
{
    assert(seq![edit].drop_last() =~= Seq::empty());
    assert(edited(file_lines, seq![edit].drop_last()) == file_lines);
    if 1 <= edit.line <= file_lines.len() {
        assert(edited(file_lines, seq![edit]) =~= file_lines.take(edit.line - 1) + seq![
            edited_line(file_lines[edit.line - 1], edit.suggestion),
        ] + file_lines.skip(edit.line as int));
    }
    if right.len() == 0 {
        assert(left + right =~= left);
    } else {
        let both = left + right;
        assert(both.drop_last() =~= left + right.drop_last());
        assert(both.last() == right.last());
        edits_are_applied_in_order(file_lines, edit, left, right.drop_last());
    }
}

/// A file of lines that end in newlines is fixed line by line: what comes out is
/// the edited lines, with a newline between each two.
pub proof fn files_are_fixed_line_by_line(parts: Seq<Seq<char>>, edits: Seq<EditView>)
    requires
        parts.len() > 0,
        forall|i: int| 0 <= i < parts.len() ==> is_plain_line(#[trigger] parts[i]),
    ensures
        fixed(join(parts, seq!['\n']) + seq!['\n'], edits) == join(
            edited(parts, edits),
            seq!['\n'],
        ),
{
    reveal_strlit("\n");
    assert("\n"@ =~= seq!['\n']);
    joined_lines_are_split_again(parts);
}

/// A carriage return before a newline is lost with it, in edited files and in
/// others: a file of two lines.
pub proof fn line_ends_become_newlines(first: Seq<char>, second: Seq<char>)
    requires
        is_plain_line(first),
        is_plain_line(second),
        second.len() > 0,
    ensures
        fixed(first + seq!['\r', '\n'] + second, Seq::empty()) == first + seq!['\n'] + second,
{
    reveal_strlit("\n");
    assert("\n"@ =~= seq!['\n']);
    lines_end_at_newlines(first, second);
    a_text_without_newline_is_one_line(second);
    join_of_two(first, second);
}

proof fn join_of_two(first: Seq<char>, second: Seq<char>)
    ensures
        join(seq![first] + seq![second], "\n"@) == first + "\n"@ + second,
{
    joining_goes_list_by_list(seq![first], seq![second], first, "\n"@);
    joining_goes_list_by_list(seq![first], seq![second], second, "\n"@);
}

/// A finding is fixable exactly where it has a replacement and a file; its edit is
/// that replacement, for the line that the finding begins in.
pub proof fn fixable_findings_have_a_file(finding: LintFindingView)
    ensures
        fixable(finding) <==> finding.suggestion is Some && finding.file.len() != 0,
        edit_of(finding).line == finding.span.line_start,
        edit_of(finding).message == finding.message,
        finding.suggestion matches Some(text) ==> edit_of(finding).suggestion == text,
{
}

/// The edits of a file are those of its fixable findings, in the order of the
/// findings.
pub proof fn edits_follow_the_findings(
    findings: Seq<LintFindingView>,
    finding: LintFindingView,
    file: Seq<char>,
)
    ensures
        edits_for(Seq::empty(), file).len() == 0,
        finding.suggestion is Some && finding.file.len() > 0 && finding.file == file ==> edits_for(
            findings.push(finding),
            file,
        ) == edits_for(findings, file) + seq![edit_of(finding)],
        finding.suggestion is None || finding.file.len() == 0 || finding.file != file ==> edits_for(
            findings.push(finding),
            file,
        ) == edits_for(findings, file),
{
    let all = findings.push(finding);
    assert(all.drop_last() =~= findings);
    assert(all.last() == finding);
    if fixable(finding) && finding.file == file {
        assert(edits_for(all, file) =~= edits_for(findings, file) + seq![edit_of(finding)]);
    }
}

/// A plan has one entry for each file that a fixable finding is in, no other and
/// none twice, and the entry holds the edits of that file.
pub proof fn plans_hold_every_fix(
    plan: Seq<FileEdits>,
    findings: Seq<LintFindingView>,
    i: int,
    k: int,
    l: int,
)
    requires
        plans(plan, findings),
    ensures
        0 <= i < findings.len() && fixable(findings[i]) ==> exists|j: int|
            0 <= j < plan.len() && (#[trigger] plan[j]).file@ == findings[i].file,
        0 <= k < plan.len() ==> edit_views(plan[k].edits@) == edits_for(findings, plan[k].file@),
        0 <= k < plan.len() ==> exists|j: int|
            0 <= j < findings.len() && fixable(#[trigger] findings[j]) && findings[j].file
                == plan[k].file@,
        0 <= k < l < plan.len() ==> plan[k].file@ != plan[l].file@,
{
    let files = files_to_fix(findings);
    files_are_distinct(findings);
    if 0 <= i < findings.len() && fixable(findings[i]) {
        every_fix_is_planned(findings, i);
        let j = choose|j: int| 0 <= j < files.len() && files[j] == findings[i].file;
        assert(plan[j].file@ == findings[i].file);
    }
    if 0 <= k < plan.len() {
        assert(plan[k].file@ == files[k]);
        only_fixes_are_planned(findings, k);
    }
    if 0 <= k < l < plan.len() {
        assert(plan[l].file@ == files[l]);
        assert(files[k] != files[l]);
    }
}

/// An edit is known by its view in all of its fields, and a list of edits by those
/// of its members in order.
pub proof fn edits_are_viewed_whole(edit: Edit, edits: Seq<Edit>, i: int)
    ensures
        edit@.line == edit.line,
        edit@.message == edit.message@,
        edit@.suggestion == edit.suggestion@,
        edit_views(edits).len() == edits.len(),
        0 <= i < edits.len() ==> edit_views(edits)[i] == edits[i]@,
{
}

} // verus!
