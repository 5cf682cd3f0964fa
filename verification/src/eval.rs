//! The value of an expression of the command language.

use vstd::prelude::*;
use crate::command::{EvalExpr, ExprModel};
use crate::error::DebugError;
use crate::module::Module;
use crate::name_resolution;
use crate::process::Process;
use crate::registers;
use crate::registers::ThreadContext;
use crate::text;

verus! {

/// What an expression is evaluated against: the target's modules and the
/// registers of the current thread.
pub struct EvalContext<'a> {
    pub process: &'a Process,
    pub register_context: &'a ThreadContext,
}

/// The value of a symbol: a register for `@name`, else the address of `module!name`.
pub open spec fn symbol_value(sym: Seq<char>, modules: Seq<Module>, registers: ThreadContext)
    -> Result<u64, DebugError> {
    if sym.len() > 0 && sym[0] == '@' {
        match registers::register_named(registers, text::lower_seq(sym.skip(1))) {
            Some(v) => Ok(v),
            None => Err(DebugError::UnknownRegister),
        }
    } else {
        name_resolution::address_of_name(modules, sym)
    }
}

/// The value of an expression. A sum that does not fit in 64 bits is an
/// error, and so is a sum with an operand that is one; of two failing
/// operands the left one gives the error.
pub open spec fn value_of(expr: ExprModel, modules: Seq<Module>, registers: ThreadContext)
    -> Result<u64, DebugError>
    decreases expr,
{
    match expr {
        ExprModel::Number(x) => Ok(x),
        ExprModel::Symbol(sym) => symbol_value(sym, modules, registers),
        ExprModel::Add(a, b) => match value_of(*a, modules, registers) {
            Err(e) => Err(e),
            Ok(x) => match value_of(*b, modules, registers) {
                Err(e) => Err(e),
                Ok(y) => if x + y > u64::MAX {
                    Err(DebugError::ArithmeticOverflow)
                } else {
                    Ok((x + y) as u64)
                },
            },
        },
    }
}

/// Evaluates an expression: a number is its value, `@name` the register
/// of that name, `module!name` the address of that function, and a sum
/// the sum of its operands.
pub fn evaluate_expression(expr: &EvalExpr, context: &EvalContext) -> (r: Result<u64, DebugError>)
    ensures
        r == value_of(expr@, context.process.modules(), *context.register_context),
    decreases expr,
{
    match expr {
        EvalExpr::Number(x) => Ok(*x),
        EvalExpr::Add(x, _, y) => {
            let a = match evaluate_expression(x, context) {
                Ok(v) => v,
                Err(e) => { return Err(e); },
            };
            let b = match evaluate_expression(y, context) {
                Ok(v) => v,
                Err(e) => { return Err(e); },
            };
            match a.checked_add(b) {
                Some(v) => Ok(v),
                None => Err(DebugError::ArithmeticOverflow),
            }
        },
        EvalExpr::Symbol(sym) => {
            let chars = text::chars_of(sym.as_str());
            if chars.len() > 0 && chars[0] == '@' {
                let name = text::string_of(&chars, 1, chars.len());
                proof {
                    assert(chars@.subrange(1, chars.len() as int) =~= sym@.skip(1));
                }
                registers::get_register(context.register_context, name.as_str())
            } else {
                name_resolution::resolve_name_to_address(sym.as_str(), context.process)
            }
        },
    }
}

/// `@rip` is the instruction pointer of the current thread, however the
/// letters are cased.
pub proof fn lemma_rip_evaluates(sym: Seq<char>, modules: Seq<Module>, registers: ThreadContext)
    requires
        sym.len() == 4,
        sym[0] == '@',
        sym[1] == 'r' || sym[1] == 'R',
        sym[2] == 'i' || sym[2] == 'I',
        sym[3] == 'p' || sym[3] == 'P',
    ensures
        value_of(ExprModel::Symbol(sym), modules, registers) == Ok::<u64, DebugError>(registers.rip),
{
    reveal_strlit("rax");
    reveal_strlit("rbx");
    reveal_strlit("rcx");
    reveal_strlit("rdx");
    reveal_strlit("rsi");
    reveal_strlit("rdi");
    reveal_strlit("rip");
    let lower = text::lower_seq(sym.skip(1));
    assert(lower =~= seq!['r', 'i', 'p']);
    assert("rip"@ =~= seq!['r', 'i', 'p']);
    assert(lower[1] != "rax"@[1]);
    assert(lower[1] != "rbx"@[1]);
    assert(lower[1] != "rcx"@[1]);
    assert(lower[1] != "rdx"@[1]);
    assert(lower[1] != "rsi"@[1]);
    assert(lower[1] != "rdi"@[1]);
}

/// A qualified symbol evaluates to the address that name resolution gives.
pub proof fn lemma_symbol_evaluates(sym: Seq<char>, modules: Seq<Module>, registers: ThreadContext)
    requires
        sym.len() > 0,
        sym[0] != '@',
    ensures
        value_of(ExprModel::Symbol(sym), modules, registers) == name_resolution::address_of_name(
            modules,
            sym,
        ),
{
}

} // verus!
