//! A verified interpreter core for the Bril intermediate language.
//!
//! A program arrives as written ([`conversion`]), becomes a typed program
//! ([`program`]), is checked ([`check`]), is cut into basic blocks with every
//! name resolved to a number ([`basic_block`], [`ir`], [`names`]) and is run
//! step by step ([`interp`]) on a stack ([`environment`]) and a heap
//! ([`allocator`], [`basic_heap`]). What a step does is said once, as a
//! function on abstract states ([`semantics`]); the machine is proved to do
//! exactly that. Floating point numbers are carried as bit patterns: the
//! machine asks its caller for every result that needs floating point work.

/// Values, pointers, and what a heap has to do.
pub mod allocator;
/// Programs as basic blocks, and how they are built.
pub mod basic_block;
/// A heap kept in a hash map.
pub mod basic_heap;
/// Typed pointers, and messages with the place they belong to.
pub mod brili;
/// Control flow graphs.
pub mod cfg;
/// The type checker.
pub mod check;
/// From programs as written to programs.
pub mod conversion;
/// The stack.
pub mod environment;
/// The errors of the interpreter.
pub mod error;
/// The hasher of the hash maps.
pub mod fx;
/// The machine that runs a program.
pub mod interp;
/// Instructions with every name resolved.
pub mod ir;
/// What the interpreter asks of MMTk.
pub mod mmtk_bril;
/// Maps from names to numbers.
pub mod names;
/// Source positions and errors that carry them.
pub mod positional;
/// Programs, functions and instructions.
pub mod program;
/// What a step of the machine does.
pub mod semantics;
/// The texts of values and of program arguments.
pub mod text;
/// The signatures of operations.
pub mod types;
/// What a data flow analysis knows.
pub mod worklist;

use vstd::prelude::*;
use crate::basic_block::{built_program, BBProgram};
use crate::check::{program_checked, type_check};
use crate::conversion::{program_converted, AbstractProgram, ConversionError};
use crate::error::InterpError;
use crate::interp::{execute_main, main_report, RunReport, RunStatus};
use crate::positional::PositionalError;
use crate::program::Program;

verus! {

/// Whether `report` is what [`run_input`] shows for `prog`: what went wrong
/// with turning `prog` into a program, with its types or with building its
/// basic blocks, else nothing but success if only a check was asked for,
/// else what the run of `main` shows.
pub open spec fn input_report(
    report: RunReport,
    prog: AbstractProgram,
    inputs: Seq<String>,
    floats: Seq<Option<u64>>,
    profiling: bool,
    check: bool,
    fuel: nat,
) -> bool {
    ||| exists|e: PositionalError<ConversionError>|
        #![trigger program_converted(prog, Err(e))]
        program_converted(prog, Err(e)) && report.status == RunStatus::Failed(
            PositionalError { e: InterpError::ConversionError(e.e), pos: e.pos },
        ) && report.out@.len() == 0 && report.profiling_out@.len() == 0
    ||| exists|p: Program|
        #![trigger program_converted(prog, Ok(p))]
        program_converted(prog, Ok(p)) && match program_checked(p) {
            Err(e) => report.status == RunStatus::Failed(
                PositionalError { e: InterpError::CheckError(e.e), pos: e.pos },
            ) && report.out@.len() == 0 && report.profiling_out@.len() == 0,
            Ok(_) => match built_program(p) {
                Err(e) => report.status == RunStatus::Failed(e) && report.out@.len() == 0
                    && report.profiling_out@.len() == 0,
                Ok(bb) => if check {
                    report.status is Finished && report.out@.len() == 0
                        && report.profiling_out@.len() == 0
                } else {
                    main_report(report, bb, inputs, floats, profiling, fuel)
                },
            },
        }
}

/// Takes a program as written through the whole pipeline: turns names into
/// operations and types, checks the types, builds the basic blocks and,
/// unless only a `check` is asked for, runs `main` on `input_args` for at
/// most `fuel` steps.
pub fn run_input(
    prog: AbstractProgram,
    input_args: &Vec<String>,
    float_args: &Vec<Option<u64>>,
    profiling: bool,
    check: bool,
    fuel: u64,
) -> (report: RunReport)
    ensures
        input_report(report, prog, input_args@, float_args@, profiling, check, fuel as nat),
{
    let converted: Result<Program, PositionalError<InterpError>> = PositionalError::convert(
        Program::try_from(prog),
    );
    let program = match converted {
        Err(e) => {
            return RunReport {
                out: String::new(),
                profiling_out: String::new(),
                status: RunStatus::Failed(e),
            };
        },
        Ok(p) => p,
    };
    assert(program_converted(prog, Ok(program)));
    let checked: Result<(), PositionalError<InterpError>> = PositionalError::convert(
        type_check(&program),
    );
    match checked {
        Err(e) => {
            return RunReport {
                out: String::new(),
                profiling_out: String::new(),
                status: RunStatus::Failed(e),
            };
        },
        Ok(_) => {},
    }
    let bbprog = match BBProgram::new(program) {
        Err(e) => {
            return RunReport {
                out: String::new(),
                profiling_out: String::new(),
                status: RunStatus::Failed(e),
            };
        },
        Ok(bb) => bb,
    };
    if check {
        RunReport { out: String::new(), profiling_out: String::new(), status: RunStatus::Finished }
    } else {
        execute_main(&bbprog, input_args, float_args, profiling, fuel)
    }
}

} // verus!
