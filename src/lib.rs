//! The core of a tree-walking interpreter for a small, dynamically typed,
//! lexically scoped scripting language with closures and classes.
//!
//! The pipeline is: [`scanner`] (text to tokens), [`parser`] (tokens to
//! syntax tree), [`resolver`] (static scope resolution), and
//! [`interpreter`] (evaluation against a graph of scope frames).
pub mod ast_printer;
pub mod environment;
pub mod error;
pub mod expr;
pub mod interpreter;
pub mod lox_class;
pub mod lox_function;
pub mod lox_instance;
pub mod object;
pub mod parser;
pub mod resolver;
pub mod scanner;
pub mod semantics;
pub mod stmt;
pub mod token;

use vstd::prelude::*;
use crate::error::parse_error;
use crate::interpreter::{Interpreter, RuntimeError};
use crate::object::Numeric;
use crate::parser::Parser;
use crate::resolver::Resolver;
use crate::scanner::Scanner;
use crate::error::{report_text, token_place};
use crate::resolver::{fresh_state, r_stmts};
use crate::semantics::{program_rel, Trace};
use crate::stmt::Stmt;

verus! {

/// What a run of a program produced: the lines `print` wrote, in order,
/// and the report of the error that stopped the run, if one did.
pub struct RunOutcome {
    pub output: Vec<String>,
    pub error: Option<String>,
}

/// `s0` is a new interpreter whose distance table is what resolving `p`
/// from a fresh resolver records, and that resolution succeeded.
pub open spec fn runs_fresh<N>(s0: Interpreter<N>, p: Seq<Stmt>) -> bool {
    &&& s0.wf()
    &&& s0.environment == s0.globals
    &&& s0.frames.frames@.len() == 1
    &&& s0.frames.frames@[0].values@.len() == 0
    &&& s0.instances@.len() == 0
    &&& s0.output@.len() == 0
    &&& r_stmts(fresh_state(Map::empty()), p) matches Ok(st)
    &&& s0.locals@ == st.table
}

/// Scans, parses, resolves and runs `source`. A scanning, parsing or
/// static error stops the run before any statement runs; a runtime error
/// stops it after the output of the statements before it.
pub fn run<N: Numeric>(source: &String) -> (r: RunOutcome)
    requires
        source@.len() < u64::MAX,
        source@.len() < usize::MAX,
    ensures
        r.error is None ==> exists|p: Seq<Stmt>, s0: Interpreter<N>, s1: Interpreter<N>, t: Trace<N>|
            #[trigger] program_rel(s0, p, s1, Ok(()), t) && runs_fresh(s0, p) && s1.output@ == r.output@,
        r.error matches Some(msg) ==> r.output@.len() == 0 || exists|
            p: Seq<Stmt>,
            s0: Interpreter<N>,
            s1: Interpreter<N>,
            e: RuntimeError,
            t: Trace<N>,
        |
            #[trigger] program_rel(s0, p, s1, Err(e), t) && runs_fresh(s0, p) && s1.output@ == r.output@
                && msg@ == report_text(e.token.line, token_place(e.token), e.message@),
{
    let mut scanner = Scanner::new(source);
    let parsed = {
        let tokens = scanner.scan_tokens();
        let mut parser = Parser::new(tokens);
        parser.parse()
    };
    let errors = scanner.errors();
    if errors.len() > 0 {
        return RunOutcome { output: Vec::new(), error: Some(errors[0].clone()) };
    }
    let statements = match parsed {
        Ok(s) => s,
        Err(report) => {
            return RunOutcome { output: Vec::new(), error: Some(report) };
        },
    };
    let mut interpreter: Interpreter<N> = Interpreter::new();
    let mut resolver = Resolver::new();
    let ghost empty = Map::<usize, usize>::empty();
    proof {
        assert(interpreter.locals@ == empty);
        assert(resolver.state(empty) == fresh_state(empty));
    }
    match resolver.resolves(&mut interpreter, &statements) {
        Ok(()) => {},
        Err(e) => {
            return RunOutcome { output: Vec::new(), error: Some(e.report) };
        },
    }
    let ghost s0 = interpreter;
    proof {
        assert(s0.locals@ == r_stmts(fresh_state(empty), statements@)->Ok_0.table);
        assert(runs_fresh(s0, statements@));
    }
    let outcome = interpreter.interpret(&statements);
    let ghost go = outcome;
    let ghost t = choose|t: Trace<N>| program_rel(s0, statements@, interpreter, go, t);
    match outcome {
        Ok(()) => {
            proof {
                assert(program_rel(s0, statements@, interpreter, Ok(()), t));
            }
            let r = RunOutcome { output: interpreter.output, error: None };
            proof {
                assert(program_rel(s0, statements@, interpreter, Ok(()), t) && runs_fresh(s0, statements@) && interpreter.output@ == r.output@);
            }
            r
        },
        Err(e) => {
            let ghost ge = e;
            let report = parse_error(&e.token, e.message.as_str());
            proof {
                assert(program_rel(s0, statements@, interpreter, Err(ge), t));
            }
            let r = RunOutcome { output: interpreter.output, error: Some(report) };
            proof {
                assert(program_rel(s0, statements@, interpreter, Err(ge), t) && runs_fresh(s0, statements@) && interpreter.output@ == r.output@);
            }
            r
        },
    }
}

} // verus!
