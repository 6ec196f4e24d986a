//! The lints: their names, what they are about, and what they report.

use vstd::prelude::*;

use crate::hir::SourceSpan;
use crate::text::same_text;

verus! {

/// The lints of this library.
#[derive(Debug, Clone, Copy, PartialEq, Eq, Structural)]
pub enum Lint {
    SorobanStorageInLoop,
    RedundantEnvClone,
    UnnecessaryHostFunctionCall,
    HostInLoop,
    SymbolNewForShortLiteral,
    StorageWriteWithoutRead,
    InefficientBytesConcat,
    MapInsertInLoop,
    BytesAppendInLoop,
    DeepContractRecursion,
}

/// How a lint is reported where nothing else is asked for.
#[derive(Debug, Clone, Copy, PartialEq, Eq, Structural)]
pub enum Level {
    Allow,
    Warn,
    Deny,
}

/// The resource that a lint is about.
#[derive(Debug, Clone, Copy, PartialEq, Eq, Structural)]
pub enum LintCategory {
    StorageOperations,
    Compute,
    Memory,
    EntryLifecycle,
    SymbolOperations,
}

#[derive(Debug, Clone, Copy, PartialEq, Eq, Structural)]
pub struct LintMetadata {
    pub lint: Lint,
    pub category: LintCategory,
}

/// The name of a lint, as it stands in attributes and in the compiler's
/// messages.
pub open spec fn lint_name(lint: Lint) -> Seq<char> {
    match lint {
        Lint::SorobanStorageInLoop => "soroban_storage_in_loop"@,
        Lint::RedundantEnvClone => "redundant_env_clone"@,
        Lint::UnnecessaryHostFunctionCall => "unnecessary_host_function_call"@,
        Lint::HostInLoop => "host_in_loop"@,
        Lint::SymbolNewForShortLiteral => "symbol_new_for_short_literal"@,
        Lint::StorageWriteWithoutRead => "storage_write_without_read"@,
        Lint::InefficientBytesConcat => "inefficient_bytes_concat"@,
        Lint::MapInsertInLoop => "map_insert_in_loop"@,
        Lint::BytesAppendInLoop => "bytes_append_in_loop"@,
        Lint::DeepContractRecursion => "deep_contract_recursion"@,
    }
}

/// What a lint looks for.
pub open spec fn lint_description(lint: Lint) -> Seq<char> {
    match lint {
        Lint::SorobanStorageInLoop => "storage operations inside a loop"@,
        Lint::RedundantEnvClone => "redundant clone on Env object"@,
        Lint::UnnecessaryHostFunctionCall => "unnecessary host function call inside loop"@,
        Lint::HostInLoop => "use of Host object inside a loop"@,
        Lint::SymbolNewForShortLiteral => "Symbol::new used with a short literal that could use symbol_short! macro"@,
        Lint::StorageWriteWithoutRead => "storage write without a corresponding read"@,
        Lint::InefficientBytesConcat => "inefficient bytes concatenation"@,
        Lint::MapInsertInLoop => "Map::insert called inside a loop"@,
        Lint::BytesAppendInLoop => "repeatedly growing SDK containers inside loops"@,
        Lint::DeepContractRecursion => "deep or unbounded recursion detected in contract function"@,
    }
}

/// The lints with their categories, in the order in which they are registered.
pub open spec fn metadata() -> Seq<LintMetadata> {
    seq![
        LintMetadata {
            lint: Lint::SorobanStorageInLoop,
            category: LintCategory::StorageOperations,
        },
        LintMetadata { lint: Lint::RedundantEnvClone, category: LintCategory::Memory },
        LintMetadata { lint: Lint::UnnecessaryHostFunctionCall, category: LintCategory::Compute },
        LintMetadata { lint: Lint::HostInLoop, category: LintCategory::Compute },
        LintMetadata {
            lint: Lint::SymbolNewForShortLiteral,
            category: LintCategory::SymbolOperations,
        },
        LintMetadata {
            lint: Lint::StorageWriteWithoutRead,
            category: LintCategory::StorageOperations,
        },
        LintMetadata { lint: Lint::InefficientBytesConcat, category: LintCategory::Memory },
        LintMetadata { lint: Lint::MapInsertInLoop, category: LintCategory::StorageOperations },
        LintMetadata { lint: Lint::BytesAppendInLoop, category: LintCategory::Memory },
        LintMetadata { lint: Lint::DeepContractRecursion, category: LintCategory::Compute },
    ]
}

/// Whether `name` is the name of one of the lints.
pub open spec fn names_a_lint(name: Seq<char>) -> bool {
    exists|lint: Lint| #[trigger] lint_name(lint) == name
}

impl Lint {
    /// The name of the lint.
    pub fn name(self) -> (name: &'static str)
        ensures
            name@ == lint_name(self),
    {
        match self {
            Lint::SorobanStorageInLoop => "soroban_storage_in_loop",
            Lint::RedundantEnvClone => "redundant_env_clone",
            Lint::UnnecessaryHostFunctionCall => "unnecessary_host_function_call",
            Lint::HostInLoop => "host_in_loop",
            Lint::SymbolNewForShortLiteral => "symbol_new_for_short_literal",
            Lint::StorageWriteWithoutRead => "storage_write_without_read",
            Lint::InefficientBytesConcat => "inefficient_bytes_concat",
            Lint::MapInsertInLoop => "map_insert_in_loop",
            Lint::BytesAppendInLoop => "bytes_append_in_loop",
            Lint::DeepContractRecursion => "deep_contract_recursion",
        }
    }

    /// What the lint looks for.
    pub fn description(self) -> (description: &'static str)
        ensures
            description@ == lint_description(self),
    {
        match self {
            Lint::SorobanStorageInLoop => "storage operations inside a loop",
            Lint::RedundantEnvClone => "redundant clone on Env object",
            Lint::UnnecessaryHostFunctionCall => "unnecessary host function call inside loop",
            Lint::HostInLoop => "use of Host object inside a loop",
            Lint::SymbolNewForShortLiteral => {
                "Symbol::new used with a short literal that could use symbol_short! macro"
            },
            Lint::StorageWriteWithoutRead => "storage write without a corresponding read",
            Lint::InefficientBytesConcat => "inefficient bytes concatenation",
            Lint::MapInsertInLoop => "Map::insert called inside a loop",
            Lint::BytesAppendInLoop => "repeatedly growing SDK containers inside loops",
            Lint::DeepContractRecursion => {
                "deep or unbounded recursion detected in contract function"
            },
        }
    }

    /// How the lint is reported where nothing else is asked for: as a warning.
    pub fn default_level(self) -> (level: Level)
        ensures
            level == Level::Warn,
    {
        Level::Warn
    }
}

/// The lints with their categories, in the order in which they are registered.
pub fn lint_metadata() -> (list: Vec<LintMetadata>)
    ensures
        list@ == metadata(),
{
    let list = vec![
        LintMetadata {
            lint: Lint::SorobanStorageInLoop,
            category: LintCategory::StorageOperations,
        },
        LintMetadata { lint: Lint::RedundantEnvClone, category: LintCategory::Memory },
        LintMetadata { lint: Lint::UnnecessaryHostFunctionCall, category: LintCategory::Compute },
        LintMetadata { lint: Lint::HostInLoop, category: LintCategory::Compute },
        LintMetadata {
            lint: Lint::SymbolNewForShortLiteral,
            category: LintCategory::SymbolOperations,
        },
        LintMetadata {
            lint: Lint::StorageWriteWithoutRead,
            category: LintCategory::StorageOperations,
        },
        LintMetadata { lint: Lint::InefficientBytesConcat, category: LintCategory::Memory },
        LintMetadata { lint: Lint::MapInsertInLoop, category: LintCategory::StorageOperations },
        LintMetadata { lint: Lint::BytesAppendInLoop, category: LintCategory::Memory },
        LintMetadata { lint: Lint::DeepContractRecursion, category: LintCategory::Compute },
    ];
    assert(list@ =~= metadata());
    list
}

/// Whether `name` is the name of one of the lints.
pub fn is_lint_name(name: &str) -> (known: bool)
    ensures
        known == names_a_lint(name@),
{
    let list = lint_metadata();
    for i in 0..list.len()
        invariant
            list@ == metadata(),
            forall|j: int| 0 <= j < i ==> lint_name((#[trigger] metadata()[j]).lint) != name@,
    {
        if same_text(list[i].lint.name(), name) {
            assert(lint_name(metadata()[i as int].lint) == name@);
            return true;
        }
    }
    assert forall|lint: Lint| #[trigger] lint_name(lint) != name@ by {
        every_lint_has_metadata(lint);
        let i = choose|i: int| 0 <= i < metadata().len() && (#[trigger] metadata()[i]).lint == lint;
        assert(lint_name(metadata()[i].lint) != name@);
    }
    false
}

/// What a lint reports: where, what, and what to do about it. With a
/// replacement, the text of the place may be replaced by it as it stands.
pub struct Diagnostic {
    pub lint: Lint,
    pub span: SourceSpan,
    pub message: &'static str,
    pub help: &'static str,
    pub replacement: Option<String>,
}

/// A diagnostic with its texts as sequences.
pub struct DiagnosticView {
    pub lint: Lint,
    pub span: SourceSpan,
    pub message: Seq<char>,
    pub help: Seq<char>,
    pub replacement: Option<Seq<char>>,
}

impl View for Diagnostic {
    type V = DiagnosticView;

    open spec fn view(&self) -> DiagnosticView {
        DiagnosticView {
            lint: self.lint,
            span: self.span,
            message: self.message@,
            help: self.help@,
            replacement: crate::text::optional_text(self.replacement),
        }
    }
}

/// The view of what a lint reports, if it reports anything.
pub open spec fn reported(found: Option<Diagnostic>) -> Option<DiagnosticView> {
    match found {
        Some(diagnostic) => Some(diagnostic@),
        None => None,
    }
}

/// The views of a list of diagnostics.
pub open spec fn all_reported(found: Seq<Diagnostic>) -> Seq<DiagnosticView> {
    found.map_values(|diagnostic: Diagnostic| diagnostic@)
}

/// Each lint has an entry in the metadata.
pub proof fn every_lint_has_metadata(lint: Lint)
    ensures
        exists|i: int| 0 <= i < metadata().len() && (#[trigger] metadata()[i]).lint == lint,
{
    assert(metadata()[0].lint == Lint::SorobanStorageInLoop);
    assert(metadata()[1].lint == Lint::RedundantEnvClone);
    assert(metadata()[2].lint == Lint::UnnecessaryHostFunctionCall);
    assert(metadata()[3].lint == Lint::HostInLoop);
    assert(metadata()[4].lint == Lint::SymbolNewForShortLiteral);
    assert(metadata()[5].lint == Lint::StorageWriteWithoutRead);
    assert(metadata()[6].lint == Lint::InefficientBytesConcat);
    assert(metadata()[7].lint == Lint::MapInsertInLoop);
    assert(metadata()[8].lint == Lint::BytesAppendInLoop);
    assert(metadata()[9].lint == Lint::DeepContractRecursion);
}

/// No lint has two entries in the metadata.
pub proof fn lints_have_one_category(i: int, j: int)
    requires
        0 <= i < metadata().len(),
        0 <= j < metadata().len(),
        metadata()[i].lint == metadata()[j].lint,
    ensures
        i == j,
{
}

/// No two lints have the same name.
pub proof fn lint_names_are_distinct(left: Lint, right: Lint)
    requires
        lint_name(left) == lint_name(right),
    ensures
        left == right,
{
    reveal_strlit("soroban_storage_in_loop");
    reveal_strlit("redundant_env_clone");
    reveal_strlit("unnecessary_host_function_call");
    reveal_strlit("host_in_loop");
    reveal_strlit("symbol_new_for_short_literal");
    reveal_strlit("storage_write_without_read");
    reveal_strlit("inefficient_bytes_concat");
    reveal_strlit("map_insert_in_loop");
    reveal_strlit("bytes_append_in_loop");
    reveal_strlit("deep_contract_recursion");
    assert("soroban_storage_in_loop"@.len() == 23);
    assert("redundant_env_clone"@.len() == 19);
    assert("unnecessary_host_function_call"@.len() == 30);
    assert("host_in_loop"@.len() == 12);
    assert("symbol_new_for_short_literal"@.len() == 28);
    assert("storage_write_without_read"@.len() == 26);
    assert("inefficient_bytes_concat"@.len() == 24);
    assert("map_insert_in_loop"@.len() == 18);
    assert("bytes_append_in_loop"@.len() == 20);
    assert("deep_contract_recursion"@.len() == 23);
    assert("soroban_storage_in_loop"@[0] != "deep_contract_recursion"@[0]);
}

/// Exactly ten names are names of lints, and each is the name of the lint that it
/// spells.
pub proof fn the_names_of_the_lints(name: Seq<char>, lint: Lint)
    ensures
        names_a_lint(name) <==> {
            ||| name == "soroban_storage_in_loop"@
            ||| name == "redundant_env_clone"@
            ||| name == "unnecessary_host_function_call"@
            ||| name == "host_in_loop"@
            ||| name == "symbol_new_for_short_literal"@
            ||| name == "storage_write_without_read"@
            ||| name == "inefficient_bytes_concat"@
            ||| name == "map_insert_in_loop"@
            ||| name == "bytes_append_in_loop"@
            ||| name == "deep_contract_recursion"@
        },
        lint == Lint::SorobanStorageInLoop <==> lint_name(lint) == "soroban_storage_in_loop"@,
        lint == Lint::RedundantEnvClone <==> lint_name(lint) == "redundant_env_clone"@,
        lint == Lint::UnnecessaryHostFunctionCall <==> lint_name(lint) == "unnecessary_host_function_call"@,
        lint == Lint::HostInLoop <==> lint_name(lint) == "host_in_loop"@,
        lint == Lint::SymbolNewForShortLiteral <==> lint_name(lint) == "symbol_new_for_short_literal"@,
        lint == Lint::StorageWriteWithoutRead <==> lint_name(lint) == "storage_write_without_read"@,
        lint == Lint::InefficientBytesConcat <==> lint_name(lint) == "inefficient_bytes_concat"@,
        lint == Lint::MapInsertInLoop <==> lint_name(lint) == "map_insert_in_loop"@,
        lint == Lint::BytesAppendInLoop <==> lint_name(lint) == "bytes_append_in_loop"@,
        lint == Lint::DeepContractRecursion <==> lint_name(lint) == "deep_contract_recursion"@,
{
    if lint_name(lint) == "soroban_storage_in_loop"@ {
        lint_names_are_distinct(lint, Lint::SorobanStorageInLoop);
    }
    assert(lint_name(Lint::SorobanStorageInLoop) == "soroban_storage_in_loop"@);
    if lint_name(lint) == "redundant_env_clone"@ {
        lint_names_are_distinct(lint, Lint::RedundantEnvClone);
    }
    assert(lint_name(Lint::RedundantEnvClone) == "redundant_env_clone"@);
    if lint_name(lint) == "unnecessary_host_function_call"@ {
        lint_names_are_distinct(lint, Lint::UnnecessaryHostFunctionCall);
    }
    assert(lint_name(Lint::UnnecessaryHostFunctionCall) == "unnecessary_host_function_call"@);
    if lint_name(lint) == "host_in_loop"@ {
        lint_names_are_distinct(lint, Lint::HostInLoop);
    }
    assert(lint_name(Lint::HostInLoop) == "host_in_loop"@);
    if lint_name(lint) == "symbol_new_for_short_literal"@ {
        lint_names_are_distinct(lint, Lint::SymbolNewForShortLiteral);
    }
    assert(lint_name(Lint::SymbolNewForShortLiteral) == "symbol_new_for_short_literal"@);
    if lint_name(lint) == "storage_write_without_read"@ {
        lint_names_are_distinct(lint, Lint::StorageWriteWithoutRead);
    }
    assert(lint_name(Lint::StorageWriteWithoutRead) == "storage_write_without_read"@);
    if lint_name(lint) == "inefficient_bytes_concat"@ {
        lint_names_are_distinct(lint, Lint::InefficientBytesConcat);
    }
    assert(lint_name(Lint::InefficientBytesConcat) == "inefficient_bytes_concat"@);
    if lint_name(lint) == "map_insert_in_loop"@ {
        lint_names_are_distinct(lint, Lint::MapInsertInLoop);
    }
    assert(lint_name(Lint::MapInsertInLoop) == "map_insert_in_loop"@);
    if lint_name(lint) == "bytes_append_in_loop"@ {
        lint_names_are_distinct(lint, Lint::BytesAppendInLoop);
    }
    assert(lint_name(Lint::BytesAppendInLoop) == "bytes_append_in_loop"@);
    if lint_name(lint) == "deep_contract_recursion"@ {
        lint_names_are_distinct(lint, Lint::DeepContractRecursion);
    }
    assert(lint_name(Lint::DeepContractRecursion) == "deep_contract_recursion"@);
}

/// The category of an entry of the metadata goes by its lint.
pub proof fn the_categories_of_the_lints(i: int)
    requires
        0 <= i < metadata().len(),
    ensures
        metadata().len() == 10,
        metadata()[i].category == LintCategory::StorageOperations <==> {
            ||| metadata()[i].lint == Lint::SorobanStorageInLoop
            ||| metadata()[i].lint == Lint::StorageWriteWithoutRead
            ||| metadata()[i].lint == Lint::MapInsertInLoop
        },
        metadata()[i].category == LintCategory::Compute <==> {
            ||| metadata()[i].lint == Lint::UnnecessaryHostFunctionCall
            ||| metadata()[i].lint == Lint::HostInLoop
            ||| metadata()[i].lint == Lint::DeepContractRecursion
        },
        metadata()[i].category == LintCategory::Memory <==> {
            ||| metadata()[i].lint == Lint::RedundantEnvClone
            ||| metadata()[i].lint == Lint::InefficientBytesConcat
            ||| metadata()[i].lint == Lint::BytesAppendInLoop
        },
        metadata()[i].category == LintCategory::SymbolOperations <==> {
            ||| metadata()[i].lint == Lint::SymbolNewForShortLiteral
        },
        metadata()[i].category != LintCategory::EntryLifecycle,
{
}

/// What a lint looks for, in the words that the compiler lists it with.
pub proof fn the_descriptions_of_the_lints(lint: Lint)
    ensures
        lint == Lint::SorobanStorageInLoop ==> lint_description(lint) == "storage operations inside a loop"@,
        lint == Lint::RedundantEnvClone ==> lint_description(lint) == "redundant clone on Env object"@,
        lint == Lint::UnnecessaryHostFunctionCall ==> lint_description(lint) == "unnecessary host function call inside loop"@,
        lint == Lint::HostInLoop ==> lint_description(lint) == "use of Host object inside a loop"@,
        lint == Lint::SymbolNewForShortLiteral ==> lint_description(lint) == "Symbol::new used with a short literal that could use symbol_short! macro"@,
        lint == Lint::StorageWriteWithoutRead ==> lint_description(lint) == "storage write without a corresponding read"@,
        lint == Lint::InefficientBytesConcat ==> lint_description(lint) == "inefficient bytes concatenation"@,
        lint == Lint::MapInsertInLoop ==> lint_description(lint) == "Map::insert called inside a loop"@,
        lint == Lint::BytesAppendInLoop ==> lint_description(lint) == "repeatedly growing SDK containers inside loops"@,
        lint == Lint::DeepContractRecursion ==> lint_description(lint) == "deep or unbounded recursion detected in contract function"@,
{
}

/// A report is known by its view in all of its fields, and none stands for
/// another.
pub proof fn reports_are_viewed_whole(report: Diagnostic, reports: Seq<Diagnostic>, i: int)
    ensures
        reported(None) is None,
        reported(Some(report)) is Some,
        reported(Some(report))->0.lint == report.lint,
        reported(Some(report))->0.span == report.span,
        reported(Some(report))->0.message == report.message@,
        reported(Some(report))->0.help == report.help@,
        match report.replacement {
            Some(text) => reported(Some(report))->0.replacement == Some(text@),
            None => reported(Some(report))->0.replacement is None,
        },
        all_reported(reports).len() == reports.len(),
        0 <= i < reports.len() ==> Some(all_reported(reports)[i]) == reported(Some(reports[i])),
{
}

} // verus!
