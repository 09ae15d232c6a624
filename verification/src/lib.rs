//! A tree-walking interpreter for Lox: scanner, parser, resolver and evaluator.
//!
//! Source text goes through four stages. The scanner turns characters into
//! tokens, the parser turns tokens into statements, the resolver computes for
//! every variable reference how many scopes separate it from its declaration,
//! and the interpreter walks the statements. Every function here is verified
//! against its contract; what the interpreter needs from its surroundings
//! (number arithmetic, the clock, the output sink) comes in through
//! [`interpreter::Host`].
use vstd::prelude::*;

pub mod ast;
pub mod bindings;
pub mod errors;
pub mod guard;
pub mod interpreter;
pub mod number;
pub mod parser;
pub mod resolver;
pub mod scanner;
pub mod table;
pub mod text;
pub mod token;

pub use errors::format_err;
pub use interpreter::{Host, Interpreter, LoxValue, RuntimeError};
pub use parser::{ParseError, Parser};
pub use resolver::{ResolveError, Resolver};
pub use scanner::{get_keywords, is_alpha, is_alpha_numeric, ScanError, Scanner};
pub use token::{Token, TokenType};

verus! {

/// How far a text got.
#[derive(Debug)]
pub enum Outcome {
    /// The text has lexical errors. Nothing was parsed.
    ScanFailed(Vec<ScanError>),
    /// Some declarations do not parse. Nothing was resolved.
    ParseFailed(Vec<ParseError>),
    /// The statements do not resolve. Nothing was executed.
    ResolveFailed(ResolveError),
    /// The statements were executed.
    Ran,
}

/// What running a text gives: how far it got, and the identity that the
/// first token of the next text should get.
#[derive(Debug)]
pub struct Run {
    pub outcome: Outcome,
    pub next_id: u64,
}

/// The tokens and the statements of a text, and what resolving the
/// statements gives, where the first token gets identity `first_id` and
/// `bindings` are the distances found for earlier texts.
pub struct Stages {
    pub scanned: scanner::Scan,
    pub parsed: parser::Program,
    pub resolved: resolver::Checked,
}

/// The stages of the text `content`.
pub open spec fn stages(content: Seq<char>, first_id: u64, bindings: Map<u64, usize>) -> Stages {
    let scanned = scanner::scan(content, first_id);
    let parsed = parser::parse_spec(scanned.tokens);
    Stages {
        scanned,
        parsed,
        resolved: resolver::resolve_stmts_spec(
            resolver::State {
                scopes: Seq::empty(),
                current_function: resolver::FunctionType::Outside,
                current_class: resolver::ClassType::Outside,
                bindings,
            },
            parsed.statements,
            0,
        ),
    }
}

/// Whether `after` is what executing the text `content` in `before` leaves:
/// `statements` are the statements of the text, `begun` is `before` with
/// the distances that resolving them gives, and from there the statements
/// are executed in order.
pub open spec fn executes(
    content: Seq<char>,
    first_id: u64,
    before: Interpreter,
    statements: Vec<ast::Stmt>,
    begun: Interpreter,
    after: Interpreter,
) -> bool {
    &&& ast::statement::stmts_view(statements) == stages(
        content,
        first_id,
        before.locals@,
    ).parsed.statements
    &&& begun == (Interpreter { locals: begun.locals, ..before })
    &&& begun.locals@ == stages(content, first_id, before.locals@).resolved.state.bindings
    &&& interpreter::meaning::interpreted(begun, statements, 0, after)
}

/// Runs the text `content` in `interpreter`: scans it, parses the tokens,
/// resolves the statements and executes them. Each stage runs only if the
/// one before found no error. The tokens get identities from `first_id`
/// on, so that what an earlier text declared is kept apart from what this
/// one refers to.
pub fn run<H: Host>(interpreter: &mut Interpreter, host: &mut H, content: String, first_id: u64) -> (report:
    Run)
    requires
        old(interpreter).wf(),
    ensures
        final(interpreter).wf(),
        final(interpreter).heap.extends(&old(interpreter).heap),
        final(interpreter).environment == old(interpreter).environment,
        final(interpreter).step_limit == old(interpreter).step_limit,
        match report.outcome {
            Outcome::ScanFailed(errors) => {
                &&& errors@.len() > 0
                &&& scanner::error_views(errors@) == stages(
                    content@,
                    first_id,
                    old(interpreter).locals@,
                ).scanned.errors
                &&& *final(interpreter) == *old(interpreter)
            },
            Outcome::ParseFailed(errors) => {
                &&& stages(content@, first_id, old(interpreter).locals@).scanned.errors.len() == 0
                &&& errors@.len() > 0
                &&& parser::error_views(errors@) == stages(
                    content@,
                    first_id,
                    old(interpreter).locals@,
                ).parsed.errors
                &&& *final(interpreter) == *old(interpreter)
            },
            Outcome::ResolveFailed(error) => {
                &&& stages(content@, first_id, old(interpreter).locals@).scanned.errors.len() == 0
                &&& stages(content@, first_id, old(interpreter).locals@).parsed.errors.len() == 0
                &&& stages(content@, first_id, old(interpreter).locals@).resolved.error == Some(
                    error@,
                )
                &&& final(interpreter).locals@ == stages(
                    content@,
                    first_id,
                    old(interpreter).locals@,
                ).resolved.state.bindings
                &&& final(interpreter).heap == old(interpreter).heap
            },
            Outcome::Ran => {
                &&& stages(content@, first_id, old(interpreter).locals@).scanned.errors.len() == 0
                &&& stages(content@, first_id, old(interpreter).locals@).parsed.errors.len() == 0
                &&& stages(content@, first_id, old(interpreter).locals@).resolved.error is None
                &&& final(interpreter).locals@ == stages(
                    content@,
                    first_id,
                    old(interpreter).locals@,
                ).resolved.state.bindings
                &&& exists|statements: Vec<ast::Stmt>, begun: Interpreter| #[trigger]
                    interpreter::meaning::seen(statements, begun) && executes(
                        content@,
                        first_id,
                        *old(interpreter),
                        statements,
                        begun,
                        *final(interpreter),
                    )
            },
        },
{
    let scanned = Scanner::starting_at(content, first_id).scan_tokens();
    let next_id = scanned.next_id;
    if scanned.errors.len() > 0 {
        return Run { outcome: Outcome::ScanFailed(scanned.errors), next_id };
    }
    let mut parser = Parser::new(scanned.tokens);
    assert(parser::error_views(parser.errors@) =~= Seq::empty());
    let parsed = parser.parse();
    if parsed.errors.len() > 0 {
        return Run { outcome: Outcome::ParseFailed(parsed.errors), next_id };
    }
    let mut resolver = Resolver::new();
    assert(resolver::scope_views(resolver.scopes@) =~= Seq::empty());
    match resolver.resolve_stmts(&mut interpreter.locals, &parsed.statements) {
        Err(error) => {
            return Run { outcome: Outcome::ResolveFailed(error), next_id };
        },
        Ok(()) => {},
    }
    let ghost begun = *interpreter;
    interpreter.interpret(host, &parsed.statements);
    proof {
        assert(interpreter::meaning::seen(parsed.statements, begun));
    }
    Run { outcome: Outcome::Ran, next_id }
}

} // verus!
