use vstd::prelude::*;

pub mod ast_printer;
pub mod environment;
pub mod expr;
pub mod interpreter;
pub mod language;
pub mod location;
pub mod parser;
pub mod reporter;
pub mod resolver;
pub mod scanner;
pub mod stmt;
pub mod text;
pub mod token;

pub use crate::expr::Expr;
pub use crate::interpreter::lox_type::Number;
pub use crate::location::FileLocation;
pub use crate::reporter::Reporter;
pub use crate::stmt::Function;
pub use crate::stmt::Stmt;
pub use crate::token::Token;
pub use crate::token::TokenType;

use crate::reporter::{
    ReportView,
    extends,
    message,
    spec_has_diagnostics,
};
use crate::ast_printer::internal::spec_print_stmt;
use crate::parser::grammar::parsed;
use crate::resolver::spec_resolve;
use crate::scanner::{
    spec_scan,
    spec_scannable,
    tokens_view,
};
use crate::stmt::view_stmts;
use crate::token::{
    TokenView,
    spec_token_type_name,
};

verus! {

/// How a token is listed: `[token]: `, its type, then its lexeme in quotes.
pub open spec fn token_text(t: TokenView) -> Seq<char> {
    "[token]: "@ + spec_token_type_name(t.token_type) + " '"@ + t.lexeme + "'"@
}

/// One message listing each token, in order.
pub open spec fn token_messages(tokens: Seq<TokenView>) -> Seq<ReportView> {
    tokens.map_values(|t: TokenView| message(token_text(t)))
}

/// The reports after scanning `source` onto `reports`.
pub open spec fn after_scan(reports: Seq<ReportView>, source: Seq<char>) -> Seq<ReportView> {
    reports + spec_scan(source).1
}

/// One message showing each statement, in order.
pub open spec fn stmt_messages(statements: Seq<Stmt>) -> Seq<ReportView> {
    statements.map_values(|st: Stmt| message("[stmt] "@ + spec_print_stmt(0, st)))
}

/// Reports a message listing each of `tokens`.
fn report_tokens<R: Reporter>(reporter: &mut R, tokens: &Vec<Token>)
    ensures
        final(reporter).reports() == old(reporter).reports() + token_messages(tokens_view(tokens@)),
{
    let mut i: usize = 0;
    while i < tokens.len()
        invariant
            0 <= i <= tokens.len(),
            reporter.reports() == old(reporter).reports() + token_messages(
                tokens_view(tokens@).take(i as int),
            ),
        decreases tokens.len() - i,
    {
        let mut text = String::from_str("[token]: ");
        let shown = tokens[i].to_display_string();
        text.append(shown.as_str());
        assert(text@ =~= token_text(tokens@[i as int]@));
        reporter.add_message(text.as_str());
        assert(token_messages(tokens_view(tokens@).take(i + 1)) =~= token_messages(
            tokens_view(tokens@).take(i as int),
        ).push(message(token_text(tokens@[i as int]@))));
        i = i + 1;
    }
    assert(tokens_view(tokens@).take(i as int) =~= tokens_view(tokens@));
}

/// Runs a program: the same as `interpret`.
pub fn run<N: Number, R: Reporter>(reporter: &mut R, source: &str)
    requires
        spec_scannable(source@),
    ensures
        interpreted::<N>(old(reporter).reports(), source@, final(reporter).reports()),
{
    interpret::<N, R>(reporter, source);
}

/// Scans `source` and reports a message listing each token.
pub fn scan<R: Reporter>(reporter: &mut R, source: &str)
    requires
        spec_scannable(source@),
    ensures
        final(reporter).reports() == after_scan(old(reporter).reports(), source@) + token_messages(
            spec_scan(source@).0,
        ),
{
    let tokens = scanner::scan_tokens(reporter, source);
    report_tokens(reporter, &tokens);
}

/// Scans `source`, lists its tokens and, where scanning reported no error,
/// parses it and reports a message showing each statement.
pub fn parse<R: Reporter>(reporter: &mut R, source: &str)
    requires
        spec_scannable(source@),
    ensures
        ({
            let listed = after_scan(old(reporter).reports(), source@) + token_messages(
                spec_scan(source@).0,
            );
            let p = parsed(spec_scan(source@).0, false);
            if spec_has_diagnostics(listed) {
                final(reporter).reports() == listed.push(
                    message("[parser] not parsing due to scan errors"@),
                )
            } else {
                exists|statements: Seq<Stmt>|
                    view_stmts(statements) == p.0 && final(reporter).reports() == listed + p.1
                        + stmt_messages(statements)
            }
        }),
{
    let tokens = scanner::scan_tokens(reporter, source);
    report_tokens(reporter, &tokens);
    if reporter.has_diagnostics() {
        reporter.add_message("[parser] not parsing due to scan errors");
        return;
    }
    let statements = parser::parse(reporter, tokens);
    let ghost parsed_reports = reporter.reports();
    let mut i: usize = 0;
    while i < statements.len()
        invariant
            0 <= i <= statements.len(),
            reporter.reports() == parsed_reports + stmt_messages(statements@.take(i as int)),
        decreases statements.len() - i,
    {
        let mut text = String::from_str("[stmt] ");
        let shown = ast_printer::print_stmt(&statements[i]);
        text.append(shown.as_str());
        reporter.add_message(text.as_str());
        assert(stmt_messages(statements@.take(i + 1)) =~= stmt_messages(
            statements@.take(i as int),
        ).push(message("[stmt] "@ + spec_print_stmt(0, statements@[i as int]))));
        i = i + 1;
    }
    assert(statements@.take(i as int) =~= statements@);
}

/// Scans, parses and resolves `source`, each step only where the steps before
/// it reported no error.
pub fn resolve<R: Reporter>(reporter: &mut R, source: &str)
    requires
        spec_scannable(source@),
    ensures
        ({
            let scanned = after_scan(old(reporter).reports(), source@);
            let p = parsed(spec_scan(source@).0, false);
            if spec_has_diagnostics(scanned) {
                final(reporter).reports() == scanned.push(
                    message("[resolve] not parsing due to scan errors"@),
                )
            } else if spec_has_diagnostics(scanned + p.1) {
                final(reporter).reports() == (scanned + p.1).push(
                    message("[resolve] not resolve due to parsing errors"@),
                )
            } else {
                exists|statements: Seq<Stmt>|
                    view_stmts(statements) == p.0 && final(reporter).reports() == scanned + p.1
                        + spec_resolve(statements).reports
            }
        }),
{
    let tokens = scanner::scan_tokens(reporter, source);
    if reporter.has_diagnostics() {
        reporter.add_message("[resolve] not parsing due to scan errors");
        return;
    }
    let statements = parser::parse(reporter, tokens);
    if reporter.has_diagnostics() {
        reporter.add_message("[resolve] not resolve due to parsing errors");
        return;
    }
    let _ = resolver::resolve(reporter, &statements);
}

/// The reports that running `source` leaves after `before`: where scanning,
/// parsing or resolving reported an error, a message saying so ends them;
/// otherwise those of a run of the statements as `program_run` describes it.
pub open spec fn interpreted<N: Number>(before: Seq<ReportView>, source: Seq<char>, after: Seq<ReportView>) -> bool {
    let scanned = after_scan(before, source);
    let p = parsed(spec_scan(source).0, false);
    if spec_has_diagnostics(scanned) {
        after == scanned.push(
            message("[parser] not parsing due to scan errors"@),
        )
    } else if spec_has_diagnostics(scanned + p.1) {
        after == (scanned + p.1).push(
            message("[interpreter] not interpreting due to parsing errors"@),
        )
    } else {
        exists|statements: Seq<Stmt>|
            #![auto]
            view_stmts(statements) == p.0 && ({
                let resolved = scanned + p.1 + spec_resolve(statements).reports;
                if spec_has_diagnostics(resolved) {
                    after == resolved.push(
                        message("[interpreter] not interpreting due to resolver errors"@),
                    )
                } else {
                    // The values' lifetime plays no part in what a run does.
                    interpreter::program_run::<'static, N>(
                        spec_resolve(statements).depths,
                        statements,
                        resolved,
                        after,
                    )
                }
            })
    }
}

/// Scans, parses, resolves and runs `source`, each step only where the steps
/// before it reported no error.  Numbers are of type `N`.
pub fn interpret<N: Number, R: Reporter>(reporter: &mut R, source: &str)
    requires
        spec_scannable(source@),
    ensures
        interpreted::<N>(old(reporter).reports(), source@, final(reporter).reports()),
{
    let tokens = scanner::scan_tokens(reporter, source);
    if reporter.has_diagnostics() {
        reporter.add_message("[parser] not parsing due to scan errors");
        return;
    }
    let statements = parser::parse(reporter, tokens);
    if reporter.has_diagnostics() {
        reporter.add_message("[interpreter] not interpreting due to parsing errors");
        return;
    }
    let depths = resolver::resolve(reporter, &statements);
    if reporter.has_diagnostics() {
        reporter.add_message("[interpreter] not interpreting due to resolver errors");
        return;
    }
    interpreter::interpret::<N, R>(reporter, &depths, &statements);
}

/// Runs `source` as `interpret` does where it can be scanned, and otherwise
/// leaves the reports as they are and says so.
pub fn try_interpret<N: Number, R: Reporter>(reporter: &mut R, source: &str) -> (ok: bool)
    ensures
        ok == spec_scannable(source@),
        ok ==> interpreted::<N>(old(reporter).reports(), source@, final(reporter).reports()),
        !ok ==> final(reporter).reports() == old(reporter).reports(),
{
    if scanner::is_scannable(source) {
        interpret::<N, R>(reporter, source);
        true
    } else {
        false
    }
}

/// The statements of `source`, or none where scanning reported an error.
pub fn ast<R: Reporter>(reporter: &mut R, source: &str) -> (statements: Vec<Stmt>)
    requires
        spec_scannable(source@),
    ensures
        ({
            let scanned = after_scan(old(reporter).reports(), source@);
            let p = parsed(spec_scan(source@).0, false);
            if spec_has_diagnostics(scanned) {
                &&& statements.len() == 0
                &&& final(reporter).reports() == scanned
            } else {
                &&& view_stmts(statements@) == p.0
                &&& final(reporter).reports() == scanned + p.1
            }
        }),
{
    let tokens = scanner::scan_tokens(reporter, source);
    if reporter.has_diagnostics() {
        return Vec::new();
    }
    parser::parse(reporter, tokens)
}

} // verus!
