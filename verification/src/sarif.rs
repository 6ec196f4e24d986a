//! The report in SARIF, the format that code hosts show findings from.

use vstd::hash_set::StringHashSet;
use vstd::prelude::*;

use crate::findings::{finding_views, LintFinding, LintFindingView, Span};
use crate::session::{fails, is_failure, run_exit_code, Session};

verus! {

pub struct SarifReport {
    pub schema: String,
    pub version: String,
    pub runs: Vec<SarifRun>,
}

pub struct SarifRun {
    pub tool: SarifTool,
    pub results: Vec<SarifResult>,
}

pub struct SarifTool {
    pub driver: SarifToolDriver,
}

pub struct SarifToolDriver {
    pub name: String,
    pub version: String,
    pub information_uri: Option<String>,
    pub rules: Vec<SarifRule>,
}

/// A lint that has findings: its name, and the text of its first finding.
pub struct SarifRule {
    pub id: String,
    pub short_description: SarifMessage,
}

pub struct SarifResult {
    pub rule_id: String,
    pub level: String,
    pub message: SarifMessage,
    pub locations: Vec<SarifLocation>,
}

pub struct SarifMessage {
    pub text: String,
}

pub struct SarifLocation {
    pub physical_location: SarifPhysicalLocation,
}

pub struct SarifPhysicalLocation {
    pub artifact_location: SarifArtifactLocation,
    pub region: Option<SarifRegion>,
}

pub struct SarifArtifactLocation {
    pub uri: String,
}

pub struct SarifRegion {
    pub start_line: usize,
    pub start_column: Option<usize>,
    pub end_line: Option<usize>,
    pub end_column: Option<usize>,
}

/// The level in SARIF of a finding of the level `level`.
pub open spec fn sarif_level(level: Seq<char>) -> Seq<char> {
    if is_failure(level) {
        "error"@
    } else {
        "warning"@
    }
}

/// The region of a finding: none where it has no line.
pub open spec fn region_of(span: Span) -> Option<SarifRegion> {
    if span.line_start > 0 {
        Some(
            SarifRegion {
                start_line: span.line_start,
                start_column: Some(span.column_start),
                end_line: Some(span.line_end),
                end_column: Some(span.column_end),
            },
        )
    } else {
        None
    }
}

/// Whether `result` reports `finding`: its name, its level in SARIF, its text,
/// and one location, its file with its region.
pub open spec fn reports(result: SarifResult, finding: LintFindingView) -> bool {
    &&& result.rule_id@ == finding.name
    &&& result.level@ == sarif_level(finding.level)
    &&& result.message.text@ == finding.message
    &&& result.locations@.len() == 1
    &&& result.locations@[0].physical_location.artifact_location.uri@ == finding.file
    &&& result.locations@[0].physical_location.region == region_of(finding.span)
}

/// Whether one of `rules` has the name `name`.
pub open spec fn has_rule(rules: Seq<(Seq<char>, Seq<char>)>, name: Seq<char>) -> bool {
    exists|i: int| 0 <= i < rules.len() && (#[trigger] rules[i]).0 == name
}

/// The rules for `findings`: the name of each lint once, in the order in which
/// they first occur, with the text of its first finding.
pub open spec fn rules_for(findings: Seq<LintFindingView>) -> Seq<(Seq<char>, Seq<char>)>
    decreases findings.len(),
{
    if findings.len() == 0 {
        Seq::empty()
    } else {
        let earlier = rules_for(findings.drop_last());
        let finding = findings.last();
        if has_rule(earlier, finding.name) {
            earlier
        } else {
            earlier.push((finding.name, finding.message))
        }
    }
}

/// The names and texts of a list of rules.
pub open spec fn rule_views(rules: Seq<SarifRule>) -> Seq<(Seq<char>, Seq<char>)> {
    rules.map_values(|rule: SarifRule| (rule.id@, rule.short_description.text@))
}

/// Whether `report` is the report on `findings` by the version `version` of the
/// linter.
pub open spec fn describes(
    report: SarifReport,
    findings: Seq<LintFindingView>,
    version: Seq<char>,
) -> bool {
    let run = report.runs@[0];
    let driver = run.tool.driver;
    &&& report.schema@ == "https://json.schemastore.org/sarif-2.1.0"@
    &&& report.version@ == "2.1.0"@
    &&& report.runs@.len() == 1
    &&& driver.name@ == "cargo-cost-lint"@
    &&& driver.version@ == version
    &&& driver.information_uri is Some
    &&& driver.information_uri->0@ == "https://github.com/Tollcraft/soroban-cost-linter"@
    &&& rule_views(driver.rules@) == rules_for(findings)
    &&& run.results@.len() == findings.len()
    &&& forall|i: int| 0 <= i < findings.len() ==> reports(#[trigger] run.results@[i], findings[i])
}

fn sarif_result(finding: &LintFinding) -> (result: SarifResult)
    ensures
        reports(result, finding@),
{
    let level = if fails(finding.level.as_str()) {
        "error"
    } else {
        "warning"
    };
    let region = if finding.span.line_start > 0 {
        Some(
            SarifRegion {
                start_line: finding.span.line_start,
                start_column: Some(finding.span.column_start),
                end_line: Some(finding.span.line_end),
                end_column: Some(finding.span.column_end),
            },
        )
    } else {
        None
    };
    let location = SarifLocation {
        physical_location: SarifPhysicalLocation {
            artifact_location: SarifArtifactLocation { uri: finding.file.clone() },
            region,
        },
    };
    let mut locations: Vec<SarifLocation> = Vec::new();
    locations.push(location);
    SarifResult {
        rule_id: finding.name.clone(),
        level: level.to_string(),
        message: SarifMessage { text: finding.message.clone() },
        locations,
    }
}

/// The report on `findings` by the version `package_version` of the linter.
pub fn sarif_report(findings: &Vec<LintFinding>, package_version: &str) -> (report: SarifReport)
    ensures
        describes(report, finding_views(findings@), package_version@),
{
    let mut rules: Vec<SarifRule> = Vec::new();
    let mut seen_rules = StringHashSet::new();
    let mut results: Vec<SarifResult> = Vec::new();
    let ghost views = finding_views(findings@);
    assert(rule_views(rules@) =~= Seq::empty());
    for i in 0..findings.len()
        invariant
            views == finding_views(findings@),
            rule_views(rules@) == rules_for(views.take(i as int)),
            forall|name: Seq<char>| #[trigger]
                seen_rules@.contains(name) <==> has_rule(rule_views(rules@), name),
            results@.len() == i,
            forall|j: int| 0 <= j < i ==> reports(#[trigger] results@[j], views[j]),
    {
        let finding = &findings[i];
        let ghost before = rule_views(rules@);
        let ghost seen_before = seen_rules@;
        proof {
            let seen = views.take(i + 1);
            assert(seen.drop_last() =~= views.take(i as int));
            assert(seen.last() == finding@);
        }
        if seen_rules.insert(finding.name.clone()) {
            rules.push(
                SarifRule {
                    id: finding.name.clone(),
                    short_description: SarifMessage { text: finding.message.clone() },
                },
            );
            assert(rule_views(rules@) =~= before.push((finding@.name, finding@.message)));
            assert forall|name: Seq<char>| #[trigger] seen_rules@.contains(name) <==> has_rule(
                rule_views(rules@),
                name,
            ) by {
                let after = rule_views(rules@);
                if name == finding@.name {
                    assert(after[after.len() - 1].0 == name);
                }
                if has_rule(before, name) {
                    let k = choose|k: int| 0 <= k < before.len() && (#[trigger] before[k]).0 == name;
                    assert(after[k].0 == name);
                }
                if has_rule(after, name) && name != finding@.name {
                    let k = choose|k: int| 0 <= k < after.len() && (#[trigger] after[k]).0 == name;
                    assert(before[k].0 == name);
                }
                assert(seen_rules@.contains(name) <==> seen_before.contains(name) || name
                    == finding@.name);
            }
        } else {
            assert(seen_rules@ =~= seen_before);
        }
        results.push(sarif_result(finding));
    }
    assert(views.take(findings@.len() as int) =~= views);
    let driver = SarifToolDriver {
        name: "cargo-cost-lint".to_string(),
        version: package_version.to_string(),
        information_uri: Some("https://github.com/Tollcraft/soroban-cost-linter".to_string()),
        rules,
    };
    let mut runs: Vec<SarifRun> = Vec::new();
    runs.push(SarifRun { tool: SarifTool { driver }, results });
    SarifReport {
        schema: "https://json.schemastore.org/sarif-2.1.0".to_string(),
        version: "2.1.0".to_string(),
        runs,
    }
}

/// Each finding's lint has a rule.
pub proof fn every_result_has_its_rule(findings: Seq<LintFindingView>, i: int)
    requires
        0 <= i < findings.len(),
    ensures
        has_rule(rules_for(findings), findings[i].name),
    decreases findings.len(),
{
    let front = findings.drop_last();
    let earlier = rules_for(front);
    let rules = rules_for(findings);
    if i < front.len() {
        assert(front[i] == findings[i]);
        every_result_has_its_rule(front, i);
        let k = choose|k: int| 0 <= k < earlier.len() && (#[trigger] earlier[k]).0 == findings[i].name;
        assert(rules[k] == earlier[k]);
    } else if !has_rule(earlier, findings[i].name) {
        assert(rules[rules.len() - 1].0 == findings[i].name);
    }
}

/// No lint has two rules.
pub proof fn rules_are_distinct(findings: Seq<LintFindingView>, i: int, j: int)
    requires
        0 <= i < j < rules_for(findings).len(),
    ensures
        rules_for(findings)[i].0 != rules_for(findings)[j].0,
    decreases findings.len(),
{
    let earlier = rules_for(findings.drop_last());
    let rules = rules_for(findings);
    if j < earlier.len() {
        rules_are_distinct(findings.drop_last(), i, j);
    } else {
        assert(earlier[i] == rules[i]);
    }
}

/// After a build that succeeded, a run fails exactly where its report shows a
/// result of the level `error`.
pub proof fn error_results_fail_the_run(
    session: Session,
    report: SarifReport,
    version: Seq<char>,
    code: Option<i32>,
)
    requires
        session.well_formed(),
        describes(report, finding_views(session.findings@), version),
    ensures
        run_exit_code(true, code, session.highest_exit_code) != 0 <==> exists|i: int|
            0 <= i < report.runs@[0].results@.len() && (#[trigger] report.runs@[0].results@[i]).level@
                == "error"@,
{
    let findings = finding_views(session.findings@);
    let results = report.runs@[0].results@;
    reveal_strlit("error");
    reveal_strlit("warning");
    assert("error"@.len() != "warning"@.len());
    if exists|i: int| 0 <= i < findings.len() && is_failure((#[trigger] findings[i]).level) {
        let i = choose|i: int| 0 <= i < findings.len() && is_failure((#[trigger] findings[i]).level);
        assert(reports(results[i], findings[i]));
    }
    if exists|i: int| 0 <= i < results.len() && (#[trigger] results[i]).level@ == "error"@ {
        let i = choose|i: int| 0 <= i < results.len() && (#[trigger] results[i]).level@ == "error"@;
        assert(reports(results[i], findings[i]));
        assert(is_failure(findings[i].level));
    }
}

/// The region of a result, where there is one, has the four coordinates of the
/// finding; there is one exactly where the finding has a line.
pub proof fn regions_have_the_coordinates_of_the_finding(
    result: SarifResult,
    finding: LintFindingView,
)
    requires
        reports(result, finding),
    ensures
        result.locations@.len() == 1,
        ({
            let place = result.locations@[0].physical_location;
            &&& place.artifact_location.uri@ == finding.file
            &&& place.region is Some <==> finding.span.line_start > 0
            &&& place.region matches Some(region) ==> {
                &&& region.start_line == finding.span.line_start
                &&& region.start_column == Some(finding.span.column_start)
                &&& region.end_line == Some(finding.span.line_end)
                &&& region.end_column == Some(finding.span.column_end)
            }
        }),
{
}

/// A result has the name and the text of the finding. Its level is `error` where
/// that of the finding is `error` or `deny`, and `warning` otherwise.
pub proof fn results_say_what_the_finding_says(result: SarifResult, finding: LintFindingView)
    requires
        reports(result, finding),
    ensures
        result.rule_id@ == finding.name,
        result.message.text@ == finding.message,
        finding.level == "error"@ || finding.level == "deny"@ ==> result.level@ == "error"@,
        finding.level != "error"@ && finding.level != "deny"@ ==> result.level@ == "warning"@,
{
}

/// A report has one run, by the linter in its version, with a result for each
/// finding in order.
pub proof fn reports_are_complete(
    report: SarifReport,
    findings: Seq<LintFindingView>,
    version: Seq<char>,
    i: int,
)
    requires
        describes(report, findings, version),
    ensures
        report.schema@ == "https://json.schemastore.org/sarif-2.1.0"@,
        report.version@ == "2.1.0"@,
        report.runs@.len() == 1,
        report.runs@[0].tool.driver.name@ == "cargo-cost-lint"@,
        report.runs@[0].tool.driver.version@ == version,
        report.runs@[0].tool.driver.information_uri matches Some(uri) && uri@
            == "https://github.com/Tollcraft/soroban-cost-linter"@,
        report.runs@[0].results@.len() == findings.len(),
        0 <= i < findings.len() ==> reports(report.runs@[0].results@[i], findings[i]),
        report.runs@[0].tool.driver.rules@.len() == rules_for(findings).len(),
        0 <= i < rules_for(findings).len() ==> {
            let rule = report.runs@[0].tool.driver.rules@[i];
            &&& rule.id@ == rules_for(findings)[i].0
            &&& rule.short_description.text@ == rules_for(findings)[i].1
        },
{
    let rules = report.runs@[0].tool.driver.rules@;
    assert(rule_views(rules).len() == rules.len());
    if 0 <= i < rules.len() {
        assert(rule_views(rules)[i].0 == rules[i].id@);
    }
}

/// The first finding of a lint gives the lint its rule, behind the rules of the
/// findings before, with the text of that finding; a later one adds nothing.
pub proof fn first_findings_give_the_rules(
    findings: Seq<LintFindingView>,
    finding: LintFindingView,
)
    ensures
        rules_for(Seq::empty()).len() == 0,
        (exists|i: int| 0 <= i < findings.len() && (#[trigger] findings[i]).name == finding.name)
            ==> rules_for(findings.push(finding)) == rules_for(findings),
        !(exists|i: int| 0 <= i < findings.len() && (#[trigger] findings[i]).name == finding.name)
            ==> rules_for(findings.push(finding)) == rules_for(findings) + seq![
            (finding.name, finding.message),
        ],
{
    let all = findings.push(finding);
    assert(all.drop_last() =~= findings);
    assert(all.last() == finding);
    let rules = rules_for(findings);
    if exists|i: int| 0 <= i < findings.len() && (#[trigger] findings[i]).name == finding.name {
        let i = choose|i: int|
            0 <= i < findings.len() && (#[trigger] findings[i]).name == finding.name;
        every_result_has_its_rule(findings, i);
    } else {
        if has_rule(rules, finding.name) {
            rules_come_from_findings(findings, finding.name);
        }
        assert(rules_for(all) =~= rules + seq![(finding.name, finding.message)]);
    }
}

proof fn rules_come_from_findings(findings: Seq<LintFindingView>, name: Seq<char>)
    requires
        has_rule(rules_for(findings), name),
    ensures
        exists|i: int| 0 <= i < findings.len() && (#[trigger] findings[i]).name == name,
    decreases findings.len(),
{
    if findings.len() > 0 {
        let front = findings.drop_last();
        if findings.last().name == name {
            assert(findings[findings.len() - 1].name == name);
        } else {
            let rules = rules_for(findings);
            let k = choose|k: int| 0 <= k < rules.len() && (#[trigger] rules[k]).0 == name;
            assert(rules_for(front)[k].0 == name);
            rules_come_from_findings(front, name);
            let i = choose|i: int| 0 <= i < front.len() && (#[trigger] front[i]).name == name;
            assert(findings[i] == front[i]);
        }
    }
}

} // verus!
