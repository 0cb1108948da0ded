//! The runtime core of a small ECMAScript interpreter: dynamic values, objects
//! with attributed properties, environment records, and the conversions
//! between script values, host values and JSON.
//!
//! Objects and environment records live in arenas and are named by index, so
//! every operation that reads or changes an object takes the heap that owns
//! it.

pub mod builtins;
pub mod environment;
pub mod exec;
pub mod realm;
pub mod syntax;
pub mod text;

use vstd::prelude::*;
use crate::builtins::value::{display, ValueView};
use crate::environment::lexical_environment::{EnvironmentType, EnvironmentView, Store};
use crate::exec::{evaluate, Interpreter, Scope, StateView, CALL_DEPTH};
use crate::realm::FunctionView;
use crate::realm::{global_heap, Realm};
use crate::syntax::ast::{Node, NodeView};
use crate::syntax::lexer::{lex, lex_error_text, tokens_of};
use crate::syntax::parser::{parse_error_text, program, Parser};
use crate::text::chars_of;

verus! {

/// The program that a source text is, or the message of the error that
/// makes it none: `SyntaxError` where the text has no tokens, `ParsingError`
/// where the tokens are no program.
pub open spec fn parsed_source(src: Seq<char>) -> Result<NodeView, Seq<char>> {
    match tokens_of(src) {
        Err(e) => Err("SyntaxError: "@ + lex_error_text(e)),
        Ok(tokens) => match program(src, tokens) {
            Err(e) => Err("ParsingError: "@ + parse_error_text(e)),
            Ok(node) => Ok(node),
        },
    }
}

/// What running a source text does to the state, and the text that reports
/// it: the message of a source that is no program; the value of the program
/// as text; or `Error: ` and the error that the program raised as text.
/// Calls nest no deeper than [`CALL_DEPTH`].
pub open spec fn forwarded(s: StateView, scope: Scope, src: Seq<char>) -> (StateView, Seq<char>) {
    match parsed_source(src) {
        Err(message) => (s, message),
        Ok(node) => (
            evaluate(s, scope, node, CALL_DEPTH as nat).0,
            match evaluate(s, scope, node, CALL_DEPTH as nat).1 {
                Ok(v) => display(v),
                Err(e) => "Error: "@ + display(e),
            },
        ),
    }
}

/// The state of a new realm.
pub open spec fn global_state() -> StateView {
    StateView {
        heap: global_heap(),
        chain: seq![
            EnvironmentView {
                kind: EnvironmentType::Global,
                store: Store::Object(ValueView::Object(0)),
                outer: None,
            },
        ],
        functions: Seq::<FunctionView>::empty(),
    }
}

/// The global scope of a new realm.
pub open spec fn global_scope() -> Scope {
    Scope { current: 0, global: ValueView::Object(0) }
}

/// Reads a source text as a program.
pub fn parser_expr(src: &str) -> (r: Result<Node, String>)
    ensures
        match r {
            Ok(node) => parsed_source(src@) == Ok::<NodeView, Seq<char>>(node@),
            Err(message) => parsed_source(src@) == Err::<NodeView, Seq<char>>(message@),
        },
{
    let chars = chars_of(src);
    match lex(&chars) {
        Err(e) => {
            let mut message = "SyntaxError: ".to_owned();
            message.append(e.message().as_str());
            Err(message)
        },
        Ok(tokens) => {
            let parser = Parser { src: &chars, tokens: &tokens };
            match parser.parse_all() {
                Err(e) => {
                    let mut message = "ParsingError: ".to_owned();
                    message.append(e.message().as_str());
                    Err(message)
                },
                Ok(node) => Ok(node),
            }
        },
    }
}

/// Runs a source text with an existing interpreter and reports the outcome
/// as text. The state of the interpreter changes as the program changes it.
pub fn forward(engine: &mut Interpreter, src: &str) -> (r: String)
    requires
        old(engine).wf(),
    ensures
        final(engine).wf(),
        final(engine).kept(old(engine)),
        (final(engine).state(), r@) == forwarded(
            old(engine).state(),
            old(engine).scope(old(engine).realm.global_env),
            src@,
        ),
{
    let expr = match parser_expr(src) {
        Ok(v) => v,
        Err(error_string) => {
            return error_string;
        },
    };
    let current = engine.realm.global_env;
    let result = engine.run(&expr, current, CALL_DEPTH);
    match result {
        Ok(v) => v.to_string(),
        Err(v) => {
            let mut message = "Error: ".to_owned();
            message.append(v.to_string().as_str());
            message
        },
    }
}

/// Runs a source text with a new interpreter and reports the outcome as
/// text.
pub fn exec(src: &str) -> (r: String)
    ensures
        r@ == forwarded(global_state(), global_scope(), src@).1,
{
    let realm = Realm::create();
    let mut engine: Interpreter = Interpreter::new(realm);
    assert(engine.state().functions =~= Seq::<FunctionView>::empty());
    assert(engine.state() == global_state());
    forward(&mut engine, src)
}

} // verus!
