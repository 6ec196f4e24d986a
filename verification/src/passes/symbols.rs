//! Lints on symbols.

use vstd::prelude::*;

use crate::hir::{Expr, ExprKind, Res};
use crate::lint::{reported, Diagnostic, DiagnosticView, Lint};
use crate::paths::{match_soroban_def_path, path_matches, symbol_constructor};
use crate::text::{chars_of, str_texts};

verus! {

/// Reports symbols that could be made at compile time.
#[derive(Clone, Copy)]
pub struct SymbolNewForShortLiteral;

/// Whether `c` may stand in a symbol.
pub open spec fn symbol_char(c: char) -> bool {
    ||| 'a' <= c <= 'z'
    ||| 'A' <= c <= 'Z'
    ||| '0' <= c <= '9'
    ||| c == '_'
}

/// Whether `text` is a short symbol: one to nine characters out of `a-zA-Z0-9_`.
pub open spec fn short_symbol(text: Seq<char>) -> bool {
    &&& 1 <= text.len() <= 9
    &&& forall|i: int| 0 <= i < text.len() ==> symbol_char(#[trigger] text[i])
}

/// Whether `text` is a short symbol: one to nine characters out of `a-zA-Z0-9_`.
pub fn is_valid_short_symbol(text: &str) -> (valid: bool)
    ensures
        valid == short_symbol(text@),
{
    let chars = chars_of(text);
    if chars.len() > 9 || chars.len() == 0 {
        return false;
    }
    for i in 0..chars.len()
        invariant
            chars@ == text@,
            forall|j: int| 0 <= j < i ==> symbol_char(#[trigger] text@[j]),
    {
        let c: char = chars[i];
        let alphanumeric = ('a' <= c && c <= 'z') || ('A' <= c && c <= 'Z') || ('0' <= c && c
            <= '9');
        if !(alphanumeric || c == '_') {
            assert(!symbol_char(text@[i as int]));
            return false;
        }
    }
    true
}

/// The replacement for a call of the constructor: the literal, as it is written,
/// in the macro.
pub open spec fn macro_call(literal: Seq<char>) -> Seq<char> {
    "symbol_short!("@ + literal + ")"@
}

impl SymbolNewForShortLiteral {
    /// What is reported on `expr`: the constructor of symbols called with two
    /// arguments of which the second is a string literal that is a short symbol.
    /// Where the source text of the literal is at hand, the call can be replaced.
    pub open spec fn finding(expr: Expr) -> Option<DiagnosticView> {
        match expr.kind {
            ExprKind::Call { callee, args } => {
                match (callee.kind, args@[1].kind) {
                    (ExprKind::Path(Res::Def { id, path }), ExprKind::Str(literal)) => {
                        if args@.len() == 2 && path_matches(path@, symbol_constructor())
                            && short_symbol(literal@) {
                            Some(
                                DiagnosticView {
                                    lint: Lint::SymbolNewForShortLiteral,
                                    span: expr.span,
                                    message: "Symbol::new called with a short literal that could use symbol_short! macro"@,
                                    help: "use symbol_short! macro for compile-time symbol creation"@,
                                    replacement: match args@[1].snippet {
                                        Some(snippet) => Some(macro_call(snippet@)),
                                        None => None,
                                    },
                                },
                            )
                        } else {
                            None
                        }
                    },
                    _ => None,
                }
            },
            _ => None,
        }
    }

    pub fn check_expr(&self, expr: &Expr) -> (found: Option<Diagnostic>)
        ensures
            reported(found) == Self::finding(*expr),
    {
        match &expr.kind {
            ExprKind::Call { callee, args } => {
                if args.len() != 2 {
                    return None;
                }
                match &callee.kind {
                    ExprKind::Path(Res::Def { path, .. }) => {
                        let segments: [&str; 3] = ["soroban_sdk", "Symbol", "new"];
                        assert(str_texts(segments@) =~= symbol_constructor());
                        if !match_soroban_def_path(path.as_str(), &segments) {
                            return None;
                        }
                    },
                    _ => {
                        return None;
                    },
                }
                match &args[1].kind {
                    ExprKind::Str(literal) => {
                        if !is_valid_short_symbol(literal.as_str()) {
                            return None;
                        }
                    },
                    _ => {
                        return None;
                    },
                }
                let replacement = match &args[1].snippet {
                    Some(snippet) => {
                        let mut call = String::new();
                        call.append("symbol_short!(");
                        call.append(snippet.as_str());
                        call.append(")");
                        assert(call@ =~= macro_call(snippet@));
                        Some(call)
                    },
                    None => None,
                };
                Some(
                    Diagnostic {
                        lint: Lint::SymbolNewForShortLiteral,
                        span: expr.span,
                        message: "Symbol::new called with a short literal that could use symbol_short! macro",
                        help: "use symbol_short! macro for compile-time symbol creation",
                        replacement,
                    },
                )
            },
            _ => None,
        }
    }
}

/// Only calls with a short symbol are reported, and where such a call can be
/// replaced, the replacement is the macro called with the literal as it is
/// written.
pub proof fn only_short_literals_are_reported(expr: Expr)
    requires
        SymbolNewForShortLiteral::finding(expr) is Some,
    ensures
        expr.kind is Call,
        expr.kind->Call_args@.len() == 2,
        expr.kind->Call_args@[1].kind is Str,
        short_symbol(expr.kind->Call_args@[1].kind->Str_0@),
        SymbolNewForShortLiteral::finding(expr)->0.replacement is Some
            <==> expr.kind->Call_args@[1].snippet is Some,
        expr.kind->Call_args@[1].snippet matches Some(snippet)
            ==> SymbolNewForShortLiteral::finding(expr)->0.replacement == Some(
            macro_call(snippet@),
        ),
{
}

/// A character may stand in a symbol exactly where it is one of these letters,
/// digits and the underscore.
pub proof fn the_alphabet_of_symbols(c: char)
    ensures
        symbol_char(c) <==> "abcdefghijklmnopqrstuvwxyzABCDEFGHIJKLMNOPQRSTUVWXYZ0123456789_"@.contains(
            c,
        ),
{
    let alphabet = "abcdefghijklmnopqrstuvwxyzABCDEFGHIJKLMNOPQRSTUVWXYZ0123456789_"@;
    reveal_strlit("abcdefghijklmnopqrstuvwxyzABCDEFGHIJKLMNOPQRSTUVWXYZ0123456789_");
    assert(alphabet.len() == 63);
    assert(alphabet[0] == 'a');
    assert(alphabet[1] == 'b');
    assert(alphabet[2] == 'c');
    assert(alphabet[3] == 'd');
    assert(alphabet[4] == 'e');
    assert(alphabet[5] == 'f');
    assert(alphabet[6] == 'g');
    assert(alphabet[7] == 'h');
    assert(alphabet[8] == 'i');
    assert(alphabet[9] == 'j');
    assert(alphabet[10] == 'k');
    assert(alphabet[11] == 'l');
    assert(alphabet[12] == 'm');
    assert(alphabet[13] == 'n');
    assert(alphabet[14] == 'o');
    assert(alphabet[15] == 'p');
    assert(alphabet[16] == 'q');
    assert(alphabet[17] == 'r');
    assert(alphabet[18] == 's');
    assert(alphabet[19] == 't');
    assert(alphabet[20] == 'u');
    assert(alphabet[21] == 'v');
    assert(alphabet[22] == 'w');
    assert(alphabet[23] == 'x');
    assert(alphabet[24] == 'y');
    assert(alphabet[25] == 'z');
    assert(alphabet[26] == 'A');
    assert(alphabet[27] == 'B');
    assert(alphabet[28] == 'C');
    assert(alphabet[29] == 'D');
    assert(alphabet[30] == 'E');
    assert(alphabet[31] == 'F');
    assert(alphabet[32] == 'G');
    assert(alphabet[33] == 'H');
    assert(alphabet[34] == 'I');
    assert(alphabet[35] == 'J');
    assert(alphabet[36] == 'K');
    assert(alphabet[37] == 'L');
    assert(alphabet[38] == 'M');
    assert(alphabet[39] == 'N');
    assert(alphabet[40] == 'O');
    assert(alphabet[41] == 'P');
    assert(alphabet[42] == 'Q');
    assert(alphabet[43] == 'R');
    assert(alphabet[44] == 'S');
    assert(alphabet[45] == 'T');
    assert(alphabet[46] == 'U');
    assert(alphabet[47] == 'V');
    assert(alphabet[48] == 'W');
    assert(alphabet[49] == 'X');
    assert(alphabet[50] == 'Y');
    assert(alphabet[51] == 'Z');
    assert(alphabet[52] == '0');
    assert(alphabet[53] == '1');
    assert(alphabet[54] == '2');
    assert(alphabet[55] == '3');
    assert(alphabet[56] == '4');
    assert(alphabet[57] == '5');
    assert(alphabet[58] == '6');
    assert(alphabet[59] == '7');
    assert(alphabet[60] == '8');
    assert(alphabet[61] == '9');
    assert(alphabet[62] == '_');
    if alphabet.contains(c) {
        let i = choose|i: int| 0 <= i < alphabet.len() && alphabet[i] == c;
        assert(0 <= i < 63);
    }
}

/// A text is a short symbol exactly where it has one to nine characters, all of
/// them out of the alphabet.
pub proof fn short_symbols_are_spelled_in_the_alphabet(text: Seq<char>)
    ensures
        short_symbol(text) <==> 1 <= text.len() <= 9 && forall|i: int|
            0 <= i < text.len()
                ==> "abcdefghijklmnopqrstuvwxyzABCDEFGHIJKLMNOPQRSTUVWXYZ0123456789_"@.contains(
                #[trigger] text[i],
            ),
{
    assert forall|i: int| 0 <= i < text.len() implies (symbol_char(#[trigger] text[i])
        <==> "abcdefghijklmnopqrstuvwxyzABCDEFGHIJKLMNOPQRSTUVWXYZ0123456789_"@.contains(text[i])) by {
        the_alphabet_of_symbols(text[i]);
    }
}

/// A call is reported exactly where it calls `soroban_sdk::Symbol::new` with two
/// arguments, the second a literal that is a short symbol. Where the literal has
/// its source text, the replacement is the macro called with that text.
pub proof fn symbols_of_short_literals_are_reported(expr: Expr)
    ensures
        SymbolNewForShortLiteral::finding(expr) is Some <==> ({
            &&& expr.kind matches ExprKind::Call { callee, args }
            &&& args@.len() == 2
            &&& callee.kind matches ExprKind::Path(Res::Def { path, .. })
            &&& path_matches(path@, symbol_constructor())
            &&& args@[1].kind matches ExprKind::Str(literal)
            &&& short_symbol(literal@)
        }),
        SymbolNewForShortLiteral::finding(expr) matches Some(report) ==> {
            &&& report.lint == Lint::SymbolNewForShortLiteral
            &&& report.span == expr.span
            &&& report.message
                == "Symbol::new called with a short literal that could use symbol_short! macro"@
            &&& report.help == "use symbol_short! macro for compile-time symbol creation"@
            &&& match expr.kind->Call_args@[1].snippet {
                Some(text) => report.replacement == Some("symbol_short!("@ + text@ + ")"@),
                None => report.replacement is None,
            }
        },
{
}

} // verus!
