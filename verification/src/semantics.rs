use vstd::prelude::*;
use crate::allocator::{BrilPointer, HeapModel, Value};
use crate::basic_block::{FunctionView, ProgramView};
use crate::environment::EnvModel;
use crate::error::InterpError;
use crate::ir::{all_below, FlatView, LabelIndex, VarIndex};
use crate::positional::{Position, PositionalError};
use crate::program::{Literal, ValueOps};

verus! {

/// A call in progress: which function, and where in it.
#[derive(Clone, Copy, Debug, PartialEq, Eq, Structural)]
pub struct Activation {
    /// The function that runs.
    pub func: usize,
    /// The block that runs.
    pub block: usize,
    /// The next instruction within the block.
    pub instr: usize,
    /// The block that control came from, if that block has a label.
    pub last_label: Option<LabelIndex>,
}

/// What a floating point instruction needs done before it can run.
#[derive(Clone, Copy, Debug, PartialEq, Eq, Structural)]
pub enum FloatTask {
    /// The result of an arithmetic or comparison operation on two numbers,
    /// given as bit patterns: answered by a number or by a truth value.
    Binary { op: ValueOps, lhs: u64, rhs: u64 },
    /// The floating point number nearest to an integer: answered by a number.
    FromInt(i64),
    /// The texts of the floating point numbers that the next `print` shows:
    /// answered by one text for each.
    Format,
}

/// Why a run has stopped.
#[derive(Debug)]
pub enum Pause<P> {
    /// The program has ended; `main` returned this.
    Done(Option<Value<P>>),
    /// The program has failed.
    Fault(PositionalError<InterpError>),
    /// The next instruction works on floating point numbers and needs this
    /// done first.
    Float(FloatTask),
    /// The steps that were granted are used up.
    OutOfFuel,
}

/// The answer to a [`FloatTask`].
#[derive(Debug)]
pub enum FloatAnswer {
    /// The bit pattern of the result of an arithmetic operation or a conversion.
    Number(u64),
    /// The result of a comparison.
    Truth(bool),
    /// The texts of the numbers that are to be printed.
    Texts(Vec<String>),
}

/// How one step of the machine ended.
#[derive(Debug)]
pub enum Step<P> {
    /// The program goes on.
    Continue,
    /// The program has ended; `main` returned this.
    Done(Option<Value<P>>),
    /// The program has failed.
    Fault(PositionalError<InterpError>),
}

/// The abstract state of the machine.
pub struct StateView<P> {
    /// The stack.
    pub env: EnvModel<P>,
    /// The heap.
    pub heap: HeapModel<P>,
    /// Everything printed so far.
    pub out: Seq<char>,
    /// How many instructions were begun, counted block by block.
    pub instruction_count: usize,
    /// The calls in progress, the oldest first.
    pub calls: Seq<Activation>,
    /// Whether the program has ended or failed.
    pub halted: bool,
}

/// Whether `op` is floating point arithmetic.
pub open spec fn is_float_arith(op: ValueOps) -> bool {
    op == ValueOps::Fadd || op == ValueOps::Fsub || op == ValueOps::Fmul || op == ValueOps::Fdiv
}

/// Whether `op` compares floating point numbers.
pub open spec fn is_float_compare(op: ValueOps) -> bool {
    op == ValueOps::Feq || op == ValueOps::Flt || op == ValueOps::Fgt || op == ValueOps::Fle || op
        == ValueOps::Fge
}

/// Whether `u` is a Unicode scalar value.
pub open spec fn is_scalar(u: int) -> bool {
    0 <= u <= 0xD7FF || 0xE000 <= u <= 0x10FFFF
}

/// The runtime value of a literal.
pub open spec fn literal_value<P: BrilPointer>(l: Literal) -> Value<P> {
    match l {
        Literal::Int(i) => Value::Int(i),
        Literal::Bool(b) => Value::Bool(b),
        Literal::Float(f) => Value::Float(f),
        Literal::Char(c) => Value::Char(c),
    }
}

/// The quotient of `a` by a nonzero `b`, rounded towards zero; the one
/// quotient that does not fit wraps around.
pub open spec fn wrapping_div(a: i64, b: i64) -> i64 {
    match a.checked_div(b) {
        Some(q) => q,
        None => i64::MIN,
    }
}

/// What an operation of one operand gives on `v`, where neither the heap nor
/// floating point is involved.
pub open spec fn unary_value<P: BrilPointer>(
    op: ValueOps,
    v: Value<P>,
) -> Result<Value<P>, InterpError> {
    match (op, v) {
        (ValueOps::Id, _) => Ok(v),
        (ValueOps::Not, Value::Bool(b)) => Ok(Value::Bool(!b)),
        (ValueOps::Char2int, Value::Char(c)) => Ok(Value::Int(c as u32 as i64)),
        (ValueOps::Int2char, Value::Int(i)) => if is_scalar(i as int) {
            Ok(Value::Char(i as u32 as char))
        } else {
            Err(InterpError::ToCharError(i))
        },
        _ => Err(InterpError::BadValueType),
    }
}

/// What an integer operation gives.
pub open spec fn int_binary<P: BrilPointer>(
    op: ValueOps,
    a: i64,
    b: i64,
) -> Result<Value<P>, InterpError> {
    match op {
        ValueOps::Add => Ok(Value::Int(a.wrapping_add(b))),
        ValueOps::Sub => Ok(Value::Int(a.wrapping_sub(b))),
        ValueOps::Mul => Ok(Value::Int(a.wrapping_mul(b))),
        ValueOps::Div => if b == 0 {
            Err(InterpError::DivisionByZero)
        } else {
            Ok(Value::Int(wrapping_div(a, b)))
        },
        ValueOps::Eq => Ok(Value::Bool(a == b)),
        ValueOps::Lt => Ok(Value::Bool(a < b)),
        ValueOps::Gt => Ok(Value::Bool(a > b)),
        ValueOps::Le => Ok(Value::Bool(a <= b)),
        ValueOps::Ge => Ok(Value::Bool(a >= b)),
        _ => Err(InterpError::BadValueType),
    }
}

/// What a character comparison gives.
pub open spec fn char_binary<P: BrilPointer>(
    op: ValueOps,
    a: char,
    b: char,
) -> Result<Value<P>, InterpError> {
    match op {
        ValueOps::Ceq => Ok(Value::Bool(a == b)),
        ValueOps::Clt => Ok(Value::Bool((a as u32) < (b as u32))),
        ValueOps::Cgt => Ok(Value::Bool((a as u32) > (b as u32))),
        ValueOps::Cle => Ok(Value::Bool((a as u32) <= (b as u32))),
        ValueOps::Cge => Ok(Value::Bool((a as u32) >= (b as u32))),
        _ => Err(InterpError::BadValueType),
    }
}

/// What a floating point operation gives, with the answer that was handed in.
pub open spec fn float_binary<P: BrilPointer>(op: ValueOps, answer: Option<FloatAnswer>) -> Result<
    Value<P>,
    InterpError,
> {
    match answer {
        Some(FloatAnswer::Number(bits)) => if is_float_arith(op) {
            Ok(Value::Float(bits))
        } else {
            Err(InterpError::BadFloatAnswer)
        },
        Some(FloatAnswer::Truth(b)) => if is_float_compare(op) {
            Ok(Value::Bool(b))
        } else {
            Err(InterpError::BadFloatAnswer)
        },
        _ => Err(InterpError::BadFloatAnswer),
    }
}

/// What an operation of two operands gives on `a` and `b`. The operands have
/// to be of the kind the operation works on, else it fails with
/// `BadValueType`. Integer arithmetic wraps around; only a division by zero
/// fails.
pub open spec fn binary_value<P: BrilPointer>(
    op: ValueOps,
    a: Value<P>,
    b: Value<P>,
    answer: Option<FloatAnswer>,
) -> Result<
    Value<P>,
    InterpError,
> {
    match (a, b) {
        (Value::Int(x), Value::Int(y)) => int_binary(op, x, y),
        (Value::Bool(x), Value::Bool(y)) => if op == ValueOps::And {
            Ok(Value::Bool(x && y))
        } else if op == ValueOps::Or {
            Ok(Value::Bool(x || y))
        } else {
            Err(InterpError::BadValueType)
        },
        (Value::Char(x), Value::Char(y)) => char_binary(op, x, y),
        (Value::Float(_), Value::Float(_)) => if is_float_arith(op) || is_float_compare(op) {
            float_binary(op, answer)
        } else {
            Err(InterpError::BadValueType)
        },
        (Value::Pointer(p), Value::Int(y)) => if op == ValueOps::PtrAdd {
            Ok(Value::Pointer(p.spec_add(y)))
        } else {
            Err(InterpError::BadValueType)
        },
        _ => Err(InterpError::BadValueType),
    }
}

/// The digit `d` as a character.
pub open spec fn digit_char(d: int) -> char {
    ((d + 48) as u8) as char
}

/// The decimal digits of `n`, without leading zeros.
pub open spec fn decimal_nat(n: nat) -> Seq<char>
    decreases n,
{
    if n < 10 {
        seq![digit_char(n as int)]
    } else {
        decimal_nat(n / 10).push(digit_char((n % 10) as int))
    }
}

/// `i` in decimal: a minus sign if it is negative, then its digits.
pub open spec fn decimal(i: int) -> Seq<char> {
    if i < 0 {
        seq!['-'] + decimal_nat((-i) as nat)
    } else {
        decimal_nat(i as nat)
    }
}

/// How a pointer is printed.
pub open spec fn pointer_text<P: BrilPointer>(p: P) -> Seq<char> {
    "Pointer { base: "@ + decimal(p.spec_base() as int) + ", offset: "@ + decimal(
        p.spec_offset() as int,
    ) + " }"@
}

/// How a value other than a floating point number is printed: integers in
/// decimal, booleans as `true` and `false`, a character as itself.
pub open spec fn value_text<P: BrilPointer>(v: Value<P>) -> Seq<char> {
    match v {
        Value::Int(i) => decimal(i as int),
        Value::Bool(b) => if b {
            "true"@
        } else {
            "false"@
        },
        Value::Char(c) => seq![c],
        Value::Pointer(p) => pointer_text(p),
        _ => Seq::empty(),
    }
}

/// How many of `values` are floating point numbers.
pub open spec fn count_floats<P: BrilPointer>(values: Seq<Value<P>>) -> nat
    decreases values.len(),
{
    if values.len() == 0 {
        0
    } else {
        count_floats(values.drop_last()) + (if values.last() is Float { 1nat } else { 0nat })
    }
}

/// The texts of `values`, separated by single spaces. The text of the k-th
/// floating point number among them is the k-th of `texts`.
pub open spec fn joined_text<P: BrilPointer>(values: Seq<Value<P>>, texts: Seq<String>) -> Seq<char>
    decreases values.len(),
{
    if values.len() == 0 {
        Seq::empty()
    } else {
        let before = joined_text(values.drop_last(), texts);
        let sep = if values.len() == 1 {
            Seq::<char>::empty()
        } else {
            seq![' ']
        };
        let text = if values.last() is Float {
            let k = count_floats(values.drop_last()) as int;
            if k < texts.len() {
                texts[k]@
            } else {
                Seq::empty()
            }
        } else {
            value_text(values.last())
        };
        before + sep + text
    }
}

/// Whether some of `values` was never written.
pub open spec fn any_uninitialized<P: BrilPointer>(values: Seq<Value<P>>) -> bool {
    exists|i: int| 0 <= i < values.len() && #[trigger] values[i] == Value::<P>::Uninitialized
}

/// The texts that were handed in for the floating point numbers of a line.
pub open spec fn answer_texts(answer: Option<FloatAnswer>) -> Option<Seq<String>> {
    match answer {
        Some(FloatAnswer::Texts(t)) => Some(t@),
        _ => None,
    }
}

/// The line that a `print` of `values` writes: their texts separated by single
/// spaces, then a newline. Fails with `BadValueType` if a value was never
/// written, and with `BadFloatAnswer` if there are floating point numbers
/// among them and not exactly one text for each was handed in.
pub open spec fn print_line<P: BrilPointer>(
    values: Seq<Value<P>>,
    answer: Option<FloatAnswer>,
) -> Result<
    Seq<char>,
    InterpError,
> {
    if any_uninitialized(values) {
        Err(InterpError::BadValueType)
    } else if count_floats(values) == 0 {
        Ok(joined_text(values, Seq::empty()).push('\n'))
    } else if answer_texts(answer) is Some && answer_texts(answer)->Some_0.len() == count_floats(
        values,
    ) {
        Ok(joined_text(values, answer_texts(answer)->Some_0).push('\n'))
    } else {
        Err(InterpError::BadFloatAnswer)
    }
}

/// Whether a call in progress stands at a place that exists.
pub open spec fn activation_wf(p: ProgramView, a: Activation) -> bool {
    &&& a.func < p.funcs.len()
    &&& a.block < p.funcs[a.func as int].blocks.len() || (p.funcs[a.func as int].blocks.len() == 0
        && a.block == 0)
    &&& a.block < p.funcs[a.func as int].blocks.len() ==> a.instr <= p.funcs[a.func as int].blocks[a.block as int].instrs.len()
    &&& a.last_label is Some ==> {
        &&& a.last_label->Some_0 < p.funcs[a.func as int].blocks.len()
        &&& p.funcs[a.func as int].blocks[a.last_label->Some_0 as int].label is Some
    }
}

/// Whether a call in progress stands at an instruction.
pub open spec fn at_instr(p: ProgramView, a: Activation) -> bool {
    &&& a.func < p.funcs.len()
    &&& a.block < p.funcs[a.func as int].blocks.len()
    &&& a.instr < p.funcs[a.func as int].blocks[a.block as int].instrs.len()
}

/// The instruction that a call in progress stands at.
pub open spec fn instr_at(p: ProgramView, a: Activation) -> FlatView {
    p.funcs[a.func as int].blocks[a.block as int].instrs[a.instr as int]
}

/// The source position of the instruction that a call in progress stands at.
pub open spec fn pos_at(p: ProgramView, a: Activation) -> Option<Position> {
    if at_instr(p, a) && a.instr < p.funcs[a.func as int].blocks[a.block as int].positions.len() {
        p.funcs[a.func as int].blocks[a.block as int].positions[a.instr as int]
    } else {
        None
    }
}

/// The position that a fault is reported at: that of the instruction that
/// failed if it has one, else that of the call that led to it, and so on
/// outwards.
pub open spec fn fault_pos(p: ProgramView, calls: Seq<Activation>) -> Option<Position>
    decreases calls.len(),
{
    if calls.len() == 0 {
        None
    } else if pos_at(p, calls.last()) is Some {
        pos_at(p, calls.last())
    } else {
        fault_pos(p, calls.drop_last())
    }
}

/// The environment after the first `n` arguments of a call were copied from
/// the caller's frame into the callee's argument slots.
pub open spec fn copy_args<P: BrilPointer>(
    env: EnvModel<P>,
    args: Seq<VarIndex>,
    params: Seq<VarIndex>,
    n: int,
) -> EnvModel<P>
    decreases n,
{
    if n <= 0 {
        env
    } else {
        let before = copy_args(env, args, params, n - 1);
        before.set(params[n - 1], before.get_from_last_frame(args[n - 1]))
    }
}

/// The values of the variables `args` in the current frame.
pub open spec fn read_all<P: BrilPointer>(env: EnvModel<P>, args: Seq<VarIndex>) -> Seq<Value<P>> {
    Seq::new(args.len(), |i: int| env.get(args[i]))
}

/// The place of `label` among `labels`, if it is there.
pub open spec fn position_of(labels: Seq<LabelIndex>, label: LabelIndex) -> Option<int>
    decreases labels.len(),
{
    if labels.len() == 0 {
        None
    } else if position_of(labels.drop_last(), label) is Some {
        position_of(labels.drop_last(), label)
    } else if labels.last() == label {
        Some(labels.len() - 1)
    } else {
        None
    }
}

impl<P: BrilPointer> StateView<P> {
    /// The call that runs.
    pub open spec fn top(self) -> Activation {
        self.calls.last()
    }

    /// Whether the state fits the program `p`: every call in progress stands
    /// at a place that exists and has a frame of the size of its function,
    /// and every call but the innermost stands at an instruction.
    pub open spec fn wf(self, p: ProgramView) -> bool {
        &&& self.env.wf()
        &&& self.calls.len() > 0
        &&& self.env.stack_pointers.len() + 1 == self.calls.len()
        &&& forall|i: int| 0 <= i < self.calls.len() ==> activation_wf(p, #[trigger] self.calls[i])
        &&& self.env.current_frame_size == p.funcs[self.top().func as int].num_of_vars
        &&& forall|i: int|
            0 <= i < self.calls.len() - 1 ==> {
                &&& at_instr(p, #[trigger] self.calls[i])
                &&& self.env.stack_pointers[i].1 == p.funcs[self.calls[i].func as int].num_of_vars
                &&& self.env.stack_pointers[i].0 + self.env.stack_pointers[i].1
                    <= self.env.slots.len()
            }
    }

    /// The machine about to run `main`, which is function `main` of `p`, on an
    /// environment that holds its arguments.
    pub open spec fn start(
        p: ProgramView,
        main: usize,
        env: EnvModel<P>,
        heap: HeapModel<P>,
    ) -> StateView<P> {
        StateView {
            env,
            heap,
            out: Seq::empty(),
            instruction_count: first_block_len(p.funcs[main as int]),
            calls: seq![Activation { func: main, block: 0, instr: 0, last_label: None }],
            halted: false,
        }
    }

    /// The state with the innermost call one instruction further on.
    pub open spec fn advance(self) -> StateView<P> {
        StateView {
            calls: self.calls.update(
                self.calls.len() - 1,
                Activation { instr: (self.top().instr + 1) as usize, ..self.top() },
            ),
            ..self
        }
    }

    /// The state with `v` in slot `dest` and the innermost call one
    /// instruction further on.
    pub open spec fn assign(self, dest: VarIndex, v: Value<P>) -> StateView<P> {
        StateView { env: self.env.set(dest, v), ..self }.advance()
    }

    /// The state after a fault, and the fault with its position.
    pub open spec fn fault(self, p: ProgramView, e: InterpError) -> (StateView<P>, Step<P>) {
        (
            StateView { halted: true, ..self },
            Step::Fault(PositionalError { e, pos: fault_pos(p, self.calls) }),
        )
    }

    /// The state after `r` was computed for slot `dest`: the value is
    /// assigned, or the error is the fault.
    pub open spec fn finish_value(
        self,
        p: ProgramView,
        dest: VarIndex,
        r: Result<Value<P>, InterpError>,
    ) -> (
        StateView<P>,
        Step<P>,
    ) {
        match r {
            Ok(v) => (self.assign(dest, v), Step::Continue),
            Err(e) => self.fault(p, e),
        }
    }

    /// The state after control has gone to block `next` of the function that
    /// runs. The block that is left becomes the last label if it has a
    /// label, and the instructions of the new block are counted.
    pub open spec fn enter_block(self, p: ProgramView, next: LabelIndex) -> StateView<P> {
        let a = self.top();
        let f = p.funcs[a.func as int];
        StateView {
            calls: self.calls.update(
                self.calls.len() - 1,
                Activation {
                    func: a.func,
                    block: next,
                    instr: 0,
                    last_label: if f.blocks[a.block as int].label is Some {
                        Some(a.block)
                    } else {
                        None
                    },
                },
            ),
            instruction_count: self.instruction_count.wrapping_add(
                f.blocks[next as int].instrs.len() as usize,
            ),
            ..self
        }
    }

    /// The state after a call of function `func` on the variables `args`:
    /// the callee has a new frame with the arguments in its argument slots
    /// and stands at its first block. Fails with `BadNumFuncArgs` if the
    /// number of arguments is not what the callee declares, and with
    /// `StackOverflow` if the stack cannot hold the frame.
    pub open spec fn call(self, p: ProgramView, func: usize, args: Seq<VarIndex>) -> (
        StateView<P>,
        Step<P>,
    ) {
        let callee = p.funcs[func as int];
        if args.len() != callee.args_as_nums.len() {
            self.fault(
                p,
                InterpError::BadNumFuncArgs(callee.args_as_nums.len() as usize, args.len() as usize),
            )
        } else if !self.env.can_push(callee.num_of_vars) {
            self.fault(p, InterpError::StackOverflow)
        } else {
            (
                StateView {
                    env: copy_args(
                        self.env.push_frame(callee.num_of_vars),
                        args,
                        callee.args_as_nums,
                        args.len() as int,
                    ),
                    calls: self.calls.push(
                        Activation { func, block: 0, instr: 0, last_label: None },
                    ),
                    instruction_count: self.instruction_count.wrapping_add(first_block_len(callee)),
                    ..self
                },
                Step::Continue,
            )
        }
    }

    /// The state after the function that runs has returned `result`. The
    /// outermost call ends the program. Any other call gives up its frame;
    /// its caller goes on after the call, with the result in the
    /// destination if the call has one. A call that expects a value and gets
    /// none fails with `NoRetValForFunc`.
    pub open spec fn ret(
        self,
        p: ProgramView,
        result: Option<Value<P>>,
    ) -> (StateView<P>, Step<P>) {
        if self.calls.len() <= 1 {
            (StateView { halted: true, ..self }, Step::Done(result))
        } else {
            let back = StateView {
                env: self.env.pop_frame(),
                calls: self.calls.drop_last(),
                ..self
            };
            match instr_at(p, back.top()) {
                FlatView::Call { dest, .. } => match result {
                    Some(v) => (back.assign(dest, v), Step::Continue),
                    None => back.fault(
                        p,
                        InterpError::NoRetValForFunc(p.funcs[self.top().func as int].name),
                    ),
                },
                FlatView::EffectfulCall { .. } => (back.advance(), Step::Continue),
                _ => back.fault(p, InterpError::BadValueType),
            }
        }
    }

    /// The state after a `phi` for slot `dest`: the argument that belongs to
    /// the block control came from is assigned. Fails with `NoLastLabel` if
    /// control came from no labelled block, and with `PhiMissingLabel` if
    /// the `phi` does not list that block.
    pub open spec fn phi(
        self,
        p: ProgramView,
        dest: VarIndex,
        labels: Seq<LabelIndex>,
        args: Seq<VarIndex>,
    ) -> (StateView<P>, Step<P>) {
        match self.top().last_label {
            None => self.fault(p, InterpError::NoLastLabel),
            Some(last) => match position_of(labels, last) {
                None => self.fault(
                    p,
                    InterpError::PhiMissingLabel(
                        p.funcs[self.top().func as int].blocks[last as int].label->Some_0,
                    ),
                ),
                Some(k) => (self.assign(dest, self.env.get(args[k])), Step::Continue),
            },
        }
    }

    /// The state after an operation of one operand.
    pub open spec fn unary(self, p: ProgramView, op: ValueOps, dest: VarIndex, arg: VarIndex) -> (
        StateView<P>,
        Step<P>,
    ) {
        let v = self.env.get(arg);
        if op == ValueOps::Alloc {
            match v {
                Value::Int(amount) => StateView {
                    heap: self.heap.after_alloc(amount),
                    ..self
                }.finish_value(p, dest, self.heap.alloc_result(amount)),
                _ => self.fault(p, InterpError::BadValueType),
            }
        } else if op == ValueOps::Load {
            match v {
                Value::Pointer(ptr) => self.finish_value(p, dest, self.heap.read_result(ptr)),
                _ => self.fault(p, InterpError::BadValueType),
            }
        } else {
            self.finish_value(p, dest, unary_value(op, v))
        }
    }

    /// The state after a store of the value of `arg1` through the pointer in
    /// `arg0`.
    pub open spec fn store(self, p: ProgramView, arg0: VarIndex, arg1: VarIndex) -> (
        StateView<P>,
        Step<P>,
    ) {
        match self.env.get(arg0) {
            Value::Pointer(ptr) => {
                let next = StateView {
                    heap: self.heap.after_write(ptr, self.env.get(arg1)),
                    ..self
                };
                match self.heap.write_result(ptr) {
                    Ok(_) => (next.advance(), Step::Continue),
                    Err(e) => next.fault(p, e),
                }
            },
            _ => self.fault(p, InterpError::BadValueType),
        }
    }

    /// The state after a free through the pointer in `arg`.
    pub open spec fn free(self, p: ProgramView, arg: VarIndex) -> (StateView<P>, Step<P>) {
        match self.env.get(arg) {
            Value::Pointer(ptr) => {
                let next = StateView { heap: self.heap.after_free(ptr), ..self };
                match self.heap.free_result(ptr) {
                    Ok(_) => (next.advance(), Step::Continue),
                    Err(e) => next.fault(p, e),
                }
            },
            _ => self.fault(p, InterpError::BadValueType),
        }
    }

    /// The state after a `print` of the variables `args`.
    pub open spec fn print(
        self,
        p: ProgramView,
        args: Seq<VarIndex>,
        answer: Option<FloatAnswer>,
    ) -> (
        StateView<P>,
        Step<P>,
    ) {
        match print_line(read_all(self.env, args), answer) {
            Ok(line) => (StateView { out: self.out + line, ..self }.advance(), Step::Continue),
            Err(e) => self.fault(p, e),
        }
    }

    /// The state after the instruction `instr`, which the innermost call
    /// stands at.
    pub open spec fn execute(
        self,
        p: ProgramView,
        instr: FlatView,
        answer: Option<FloatAnswer>,
    ) -> (
        StateView<P>,
        Step<P>,
    ) {
        match instr {
            FlatView::Const { dest, value } => (
                self.assign(dest, literal_value(value)),
                Step::Continue,
            ),
            FlatView::FloatConst { dest, value } => match answer {
                Some(FloatAnswer::Number(bits)) => (
                    self.assign(dest, Value::Float(bits)),
                    Step::Continue,
                ),
                _ => self.fault(p, InterpError::BadFloatAnswer),
            },
            FlatView::Unary { op, dest, arg } => self.unary(p, op, dest, arg),
            FlatView::Binary { op, dest, arg0, arg1 } => self.finish_value(
                p,
                dest,
                binary_value(op, self.env.get(arg0), self.env.get(arg1), answer),
            ),
            FlatView::Call { func, args, .. } => self.call(p, func, args),
            FlatView::Phi { dest, labels, args } => self.phi(p, dest, labels, args),
            FlatView::Nop => (self.advance(), Step::Continue),
            FlatView::Jump { dest } => (self.enter_block(p, dest), Step::Continue),
            FlatView::Branch { arg, true_dest, false_dest } => match self.env.get(arg) {
                Value::Bool(b) => (
                    self.enter_block(
                        p,
                        if b {
                            true_dest
                        } else {
                            false_dest
                        },
                    ),
                    Step::Continue,
                ),
                _ => self.fault(p, InterpError::BadValueType),
            },
            FlatView::ReturnValue { arg } => self.ret(p, Some(self.env.get(arg))),
            FlatView::ReturnVoid => self.ret(p, None),
            FlatView::EffectfulCall { func, args } => self.call(p, func, args),
            FlatView::Print { args } => self.print(p, args, answer),
            FlatView::Store { arg0, arg1 } => self.store(p, arg0, arg1),
            FlatView::Free { arg } => self.free(p, arg),
        }
    }

    /// One step of the machine: the instruction that the innermost call
    /// stands at is executed. At the end of a block, control goes to the one
    /// successor if the block has exactly one, else the function returns
    /// without a value.
    pub open spec fn step(
        self,
        p: ProgramView,
        answer: Option<FloatAnswer>,
    ) -> (StateView<P>, Step<P>) {
        let a = self.top();
        let f = p.funcs[a.func as int];
        if a.block >= f.blocks.len() {
            self.ret(p, None)
        } else {
            let b = f.blocks[a.block as int];
            if a.instr >= b.instrs.len() {
                if b.exit.len() == 1 {
                    (self.enter_block(p, b.exit[0]), Step::Continue)
                } else {
                    self.ret(p, None)
                }
            } else {
                self.execute(p, b.instrs[a.instr as int], answer)
            }
        }
    }
}

/// Copying arguments changes slots of the current frame only.
pub proof fn lemma_copy_args_shape<P: BrilPointer>(
    env: EnvModel<P>,
    args: Seq<VarIndex>,
    params: Seq<VarIndex>,
    n: int,
)
    requires
        env.wf(),
        all_below(params, env.current_frame_size as nat),
        n <= params.len(),
        n <= args.len(),
    ensures
        copy_args(env, args, params, n).wf(),
        copy_args(env, args, params, n).slots.len() == env.slots.len(),
        copy_args(env, args, params, n).current_pointer == env.current_pointer,
        copy_args(env, args, params, n).current_frame_size == env.current_frame_size,
        copy_args(env, args, params, n).stack_pointers == env.stack_pointers,
    decreases n,
{
    if n > 0 {
        lemma_copy_args_shape(env, args, params, n - 1);
        assert(params[n - 1] < env.current_frame_size);
    }
}

/// A state that fits the program still does when the innermost call stands
/// somewhere else in its function.
pub proof fn lemma_move_wf<P: BrilPointer>(p: ProgramView, s: StateView<P>, a: Activation)
    requires
        s.wf(p),
        activation_wf(p, a),
        a.func == s.top().func,
    ensures
        (StateView { calls: s.calls.update(s.calls.len() - 1, a), ..s }).wf(p),
{
    let t = StateView { calls: s.calls.update(s.calls.len() - 1, a), ..s };
    assert forall|i: int| 0 <= i < t.calls.len() implies activation_wf(p, #[trigger] t.calls[i]) by {
        if i < t.calls.len() - 1 {
            assert(t.calls[i] == s.calls[i]);
        }
    }
    assert forall|i: int| 0 <= i < t.calls.len() - 1 implies {
        &&& at_instr(p, #[trigger] t.calls[i])
        &&& t.env.stack_pointers[i].1 == p.funcs[t.calls[i].func as int].num_of_vars
        &&& t.env.stack_pointers[i].0 + t.env.stack_pointers[i].1 <= t.env.slots.len()
    } by {
        assert(t.calls[i] == s.calls[i]);
    }
}

/// A state that fits the program still does when the innermost call is one
/// instruction further on.
pub proof fn lemma_advance_wf<P: BrilPointer>(p: ProgramView, s: StateView<P>)
    requires
        s.wf(p),
        at_instr(p, s.top()),
    ensures
        s.advance().wf(p),
{
    let a = Activation { instr: (s.top().instr + 1) as usize, ..s.top() };
    assert(activation_wf(p, s.top()));
    lemma_move_wf(p, s, a);
}

/// A state that fits the program still does after an assignment.
pub proof fn lemma_assign_wf<P: BrilPointer>(
    p: ProgramView,
    s: StateView<P>,
    dest: VarIndex,
    v: Value<P>,
)
    requires
        s.wf(p),
        at_instr(p, s.top()),
        dest < s.env.current_frame_size,
    ensures
        s.assign(dest, v).wf(p),
        s.advance().wf(p),
{
    let a = Activation { instr: (s.top().instr + 1) as usize, ..s.top() };
    assert(activation_wf(p, s.top()));
    lemma_move_wf(p, s, a);
    let t = StateView { env: s.env.set(dest, v), ..s };
    assert(t.wf(p)) by {
        assert forall|i: int| 0 <= i < t.calls.len() implies activation_wf(
            p,
            #[trigger] t.calls[i],
        ) by {
            assert(t.calls[i] == s.calls[i]);
        }
    }
    lemma_move_wf(p, t, a);
}

/// A state that fits the program still does after control has gone to a
/// block of the function that runs.
pub proof fn lemma_enter_block_wf<P: BrilPointer>(p: ProgramView, s: StateView<P>, next: LabelIndex)
    requires
        s.wf(p),
        s.top().block < p.funcs[s.top().func as int].blocks.len(),
        next < p.funcs[s.top().func as int].blocks.len(),
    ensures
        s.enter_block(p, next).wf(p),
{
    let a = s.top();
    let f = p.funcs[a.func as int];
    let b = Activation {
        func: a.func,
        block: next,
        instr: 0,
        last_label: if f.blocks[a.block as int].label is Some {
            Some(a.block)
        } else {
            None
        },
    };
    assert(activation_wf(p, a));
    lemma_move_wf(p, s, b);
    let t = StateView { calls: s.calls.update(s.calls.len() - 1, b), ..s };
    let u = s.enter_block(p, next);
    assert(u.calls == t.calls);
    assert(u.env == t.env);
}

/// A state that fits the program still does after a call.
pub proof fn lemma_call_wf<P: BrilPointer>(
    p: ProgramView,
    s: StateView<P>,
    func: usize,
    args: Seq<VarIndex>,
)
    requires
        p.wf(),
        s.wf(p),
        at_instr(p, s.top()),
        func < p.funcs.len(),
        all_below(args, s.env.current_frame_size as nat),
    ensures
        s.call(p, func, args).0.wf(p),
{
    let callee = p.funcs[func as int];
    if args.len() == callee.args_as_nums.len() && s.env.can_push(callee.num_of_vars) {
        let pushed = s.env.push_frame(callee.num_of_vars);
        assert(callee.wf(p.funcs.len()));
        lemma_copy_args_shape(pushed, args, callee.args_as_nums, args.len() as int);
        let t = s.call(p, func, args).0;
        let a = Activation { func, block: 0, instr: 0, last_label: None };
        assert forall|i: int| 0 <= i < t.calls.len() implies activation_wf(p, #[trigger] t.calls[i]) by {
            if i < s.calls.len() {
                assert(t.calls[i] == s.calls[i]);
            }
        }
        assert forall|i: int| 0 <= i < t.calls.len() - 1 implies {
            &&& at_instr(p, #[trigger] t.calls[i])
            &&& t.env.stack_pointers[i].1 == p.funcs[t.calls[i].func as int].num_of_vars
            &&& t.env.stack_pointers[i].0 + t.env.stack_pointers[i].1 <= t.env.slots.len()
        } by {
            assert(t.calls[i] == s.calls[i]);
            if i < s.calls.len() - 1 {
                assert(t.env.stack_pointers[i] == s.env.stack_pointers[i]);
            }
        }
    }
}

/// A state that fits the program still does after a return.
pub proof fn lemma_ret_wf<P: BrilPointer>(p: ProgramView, s: StateView<P>, result: Option<Value<P>>)
    requires
        p.wf(),
        s.wf(p),
    ensures
        s.ret(p, result).0.wf(p),
{
    if s.calls.len() > 1 {
        let back = StateView { env: s.env.pop_frame(), calls: s.calls.drop_last(), ..s };
        let n = s.calls.len() - 1;
        assert(at_instr(p, s.calls[n - 1]));
        assert(back.calls.last() == s.calls[n - 1]);
        assert(back.wf(p)) by {
            assert forall|i: int| 0 <= i < back.calls.len() implies activation_wf(
                p,
                #[trigger] back.calls[i],
            ) by {
                assert(back.calls[i] == s.calls[i]);
            }
            assert forall|i: int| 0 <= i < back.calls.len() - 1 implies {
                &&& at_instr(p, #[trigger] back.calls[i])
                &&& back.env.stack_pointers[i].1 == p.funcs[back.calls[i].func as int].num_of_vars
                &&& back.env.stack_pointers[i].0 + back.env.stack_pointers[i].1
                    <= back.env.slots.len()
            } by {
                assert(back.calls[i] == s.calls[i]);
                assert(back.env.stack_pointers[i] == s.env.stack_pointers[i]);
            }
        }
        let f = p.funcs[back.top().func as int];
        assert(f.wf(p.funcs.len()));
        assert(f.blocks[back.top().block as int].wf(
            f.num_of_vars as nat,
            f.blocks.len(),
            p.funcs.len(),
        ));
        let instr = instr_at(p, back.top());
        assert(instr.wf(f.num_of_vars as nat, f.blocks.len(), p.funcs.len()));
        match instr {
            FlatView::Call { dest, .. } => {
                if result is Some {
                    lemma_assign_wf(p, back, dest, result->Some_0);
                }
            },
            FlatView::EffectfulCall { .. } => {
                lemma_advance_wf(p, back);
            },
            _ => {},
        }
    }
}

/// The place of a label among labels is a place among them, and holds it.
pub proof fn lemma_position_of(labels: Seq<LabelIndex>, label: LabelIndex)
    ensures
        match position_of(labels, label) {
            Some(k) => 0 <= k < labels.len() && labels[k] == label,
            None => forall|i: int| 0 <= i < labels.len() ==> labels[i] != label,
        },
    decreases labels.len(),
{
    if labels.len() > 0 {
        lemma_position_of(labels.drop_last(), label);
        if position_of(labels.drop_last(), label) is None {
            assert forall|i: int| 0 <= i < labels.len() - 1 implies labels[i] != label by {
                assert(labels[i] == labels.drop_last()[i]);
            }
        }
    }
}

/// Every step keeps the state fit for the program: whatever the machine does,
/// each call in progress stands at a place that exists and its frame lies
/// within the stack.
pub proof fn lemma_step_wf<P: BrilPointer>(
    p: ProgramView,
    s: StateView<P>,
    answer: Option<FloatAnswer>,
)
    requires
        p.wf(),
        s.wf(p),
    ensures
        s.step(p, answer).0.wf(p),
{
    let a = s.top();
    let f = p.funcs[a.func as int];
    assert(activation_wf(p, a));
    assert(f.wf(p.funcs.len()));
    if a.block >= f.blocks.len() {
        lemma_ret_wf(p, s, None);
    } else {
        let b = f.blocks[a.block as int];
        assert(b.wf(f.num_of_vars as nat, f.blocks.len(), p.funcs.len()));
        if a.instr >= b.instrs.len() {
            if b.exit.len() == 1 {
                lemma_enter_block_wf(p, s, b.exit[0]);
            } else {
                lemma_ret_wf(p, s, None);
            }
        } else {
            let instr = b.instrs[a.instr as int];
            assert(instr.wf(f.num_of_vars as nat, f.blocks.len(), p.funcs.len()));
            match instr {
                FlatView::Const { dest, value } => {
                    lemma_assign_wf(p, s, dest, literal_value(value));
                },
                FlatView::FloatConst { dest, .. } => {
                    if let Some(FloatAnswer::Number(bits)) = answer {
                        lemma_assign_wf(p, s, dest, Value::Float(bits));
                    }
                },
                FlatView::Unary { op, dest, arg } => {
                    let v = s.env.get(arg);
                    if op == ValueOps::Alloc {
                        if let Value::Int(amount) = v {
                            let t = StateView { heap: s.heap.after_alloc(amount), ..s };
                            if let Ok(r) = s.heap.alloc_result(amount) {
                                lemma_assign_wf(p, t, dest, r);
                            }
                        }
                    } else if op == ValueOps::Load {
                        if let Value::Pointer(ptr) = v {
                            if let Ok(r) = s.heap.read_result(ptr) {
                                lemma_assign_wf(p, s, dest, r);
                            }
                        }
                    } else {
                        if let Ok(r) = unary_value(op, v) {
                            lemma_assign_wf(p, s, dest, r);
                        }
                    }
                },
                FlatView::Binary { op, dest, arg0, arg1 } => {
                    if let Ok(r) = binary_value(op, s.env.get(arg0), s.env.get(arg1), answer) {
                        lemma_assign_wf(p, s, dest, r);
                    }
                },
                FlatView::Call { func, args, .. } => {
                    lemma_call_wf(p, s, func, args);
                },
                FlatView::Phi { dest, labels, args } => {
                    if let Some(last) = s.top().last_label {
                        lemma_position_of(labels, last);
                        if let Some(k) = position_of(labels, last) {
                            lemma_assign_wf(p, s, dest, s.env.get(args[k]));
                        }
                    }
                },
                FlatView::Nop => {
                    lemma_advance_wf(p, s);
                },
                FlatView::Jump { dest } => {
                    lemma_enter_block_wf(p, s, dest);
                },
                FlatView::Branch { arg, true_dest, false_dest } => {
                    lemma_enter_block_wf(p, s, true_dest);
                    lemma_enter_block_wf(p, s, false_dest);
                },
                FlatView::ReturnValue { arg } => {
                    lemma_ret_wf(p, s, Some(s.env.get(arg)));
                },
                FlatView::ReturnVoid => {
                    lemma_ret_wf(p, s, None);
                },
                FlatView::EffectfulCall { func, args } => {
                    lemma_call_wf(p, s, func, args);
                },
                FlatView::Print { args } => {
                    if let Ok(line) = print_line(read_all(s.env, args), answer) {
                        lemma_advance_wf(p, StateView { out: s.out + line, ..s });
                    }
                },
                FlatView::Store { arg0, arg1 } => {
                    if let Value::Pointer(ptr) = s.env.get(arg0) {
                        let t = StateView { heap: s.heap.after_write(ptr, s.env.get(arg1)), ..s };
                        lemma_advance_wf(p, t);
                    }
                },
                FlatView::Free { arg } => {
                    if let Value::Pointer(ptr) = s.env.get(arg) {
                        let t = StateView { heap: s.heap.after_free(ptr), ..s };
                        lemma_advance_wf(p, t);
                    }
                },
            }
        }
    }
}

/// The bit patterns of the floating point numbers among `values`, in order.
pub open spec fn float_bits<P: BrilPointer>(values: Seq<Value<P>>) -> Seq<u64>
    decreases values.len(),
{
    if values.len() == 0 {
        Seq::empty()
    } else if values.last() is Float {
        float_bits(values.drop_last()).push(values.last()->Float_0)
    } else {
        float_bits(values.drop_last())
    }
}

impl<P: BrilPointer> StateView<P> {
    /// What the next step needs done on floating point numbers, if anything.
    /// An instruction that fails whatever the answer needs nothing.
    pub open spec fn float_task(self, p: ProgramView) -> Option<FloatTask> {
        if self.halted || !at_instr(p, self.top()) {
            None
        } else {
            match instr_at(p, self.top()) {
                FlatView::FloatConst { value, .. } => Some(FloatTask::FromInt(value)),
                FlatView::Binary { op, arg0, arg1, .. } => match (
                    self.env.get(arg0),
                    self.env.get(arg1),
                ) {
                    (Value::Float(lhs), Value::Float(rhs)) => if is_float_arith(op)
                        || is_float_compare(op) {
                        Some(FloatTask::Binary { op, lhs, rhs })
                    } else {
                        None
                    },
                    _ => None,
                },
                FlatView::Print { args } => if !any_uninitialized(read_all(self.env, args))
                    && count_floats(read_all(self.env, args)) > 0 {
                    Some(FloatTask::Format)
                } else {
                    None
                },
                _ => None,
            }
        }
    }

    /// The state after at most `fuel` steps, and why the run stopped there.
    /// The run stops where the program ends or fails, before an instruction
    /// that needs floating point work, and when the steps are used up.
    pub open spec fn run(self, p: ProgramView, fuel: nat) -> (StateView<P>, Pause<P>)
        decreases fuel,
    {
        if self.float_task(p) is Some {
            (self, Pause::Float(self.float_task(p)->Some_0))
        } else if fuel == 0 {
            (self, Pause::OutOfFuel)
        } else {
            match self.step(p, None).1 {
                Step::Continue => self.step(p, None).0.run(p, (fuel - 1) as nat),
                Step::Done(v) => (self.step(p, None).0, Pause::Done(v)),
                Step::Fault(e) => (self.step(p, None).0, Pause::Fault(e)),
            }
        }
    }
}

/// The machine is a function of its state: two runs that start in the same
/// state with the same steps granted print the same, end in the same state
/// and stop for the same reason.
pub proof fn lemma_run_deterministic<P: BrilPointer>(
    p: ProgramView,
    s: StateView<P>,
    t: StateView<P>,
    fuel: nat,
)
    requires
        s == t,
    ensures
        s.run(p, fuel) == t.run(p, fuel),
        s.run(p, fuel).0.out == t.run(p, fuel).0.out,
{
}

/// A run can be made in slices: where the steps of a first slice are used up,
/// going on for a second slice ends as one run of both slices does.
pub proof fn lemma_run_in_slices<P: BrilPointer>(
    p: ProgramView,
    s: StateView<P>,
    first: nat,
    second: nat,
)
    requires
        s.run(p, first).1 is OutOfFuel,
    ensures
        s.run(p, first + second) == s.run(p, first).0.run(p, second),
    decreases first,
{
    if s.float_task(p) is None && first > 0 {
        lemma_run_in_slices(p, s.step(p, None).0, (first - 1) as nat, second);
    }
}

/// Whether `instr` is one of the memory instructions that change the heap.
pub open spec fn changes_heap(instr: FlatView) -> bool {
    instr is Store || instr is Free || (instr is Unary && instr->Unary_op == ValueOps::Alloc)
}

/// Only the memory instructions change the heap: a step that runs any other
/// instruction, or none, leaves every allocation as it is, so a program
/// without them ends with the heap it started with.
pub proof fn lemma_only_memory_instructions_change_the_heap<P: BrilPointer>(
    p: ProgramView,
    s: StateView<P>,
    answer: Option<FloatAnswer>,
)
    requires
        s.wf(p),
        !(at_instr(p, s.top()) && changes_heap(instr_at(p, s.top()))),
    ensures
        s.step(p, answer).0.heap == s.heap,
{
    let a = s.top();
    assert(activation_wf(p, a));
    let f = p.funcs[a.func as int];
    if a.block < f.blocks.len() && a.instr < f.blocks[a.block as int].instrs.len() {
        let instr = f.blocks[a.block as int].instrs[a.instr as int];
        match instr {
            FlatView::Unary { op, dest, arg } => {
                assert(s.unary(p, op, dest, arg).0.heap == s.heap);
            },
            FlatView::Binary { op, dest, arg0, arg1 } => {
                let r = binary_value(op, s.env.get(arg0), s.env.get(arg1), answer);
                assert(s.finish_value(p, dest, r).0.heap == s.heap);
            },
            FlatView::Call { func, args, .. } => {
                assert(s.call(p, func, args).0.heap == s.heap);
            },
            FlatView::EffectfulCall { func, args } => {
                assert(s.call(p, func, args).0.heap == s.heap);
            },
            FlatView::Phi { dest, labels, args } => {
                assert(s.phi(p, dest, labels, args).0.heap == s.heap);
            },
            FlatView::ReturnValue { arg } => {
                assert(s.ret(p, Some(s.env.get(arg))).0.heap == s.heap);
            },
            FlatView::ReturnVoid => {
                assert(s.ret(p, None).0.heap == s.heap);
            },
            FlatView::Print { args } => {
                assert(s.print(p, args, answer).0.heap == s.heap);
            },
            _ => {},
        }
    } else {
        assert(s.ret(p, None).0.heap == s.heap);
    }
}

/// Whether the next step lets control go from the block that runs to a block
/// of the same function: whether the innermost call stands at a jump or a
/// branch, or at the end of a block that has one successor.
pub open spec fn leaves_block<P: BrilPointer>(p: ProgramView, s: StateView<P>) -> bool {
    let a = s.top();
    let f = p.funcs[a.func as int];
    if at_instr(p, a) {
        instr_at(p, a) is Jump || instr_at(p, a) is Branch
    } else {
        a.block < f.blocks.len() && f.blocks[a.block as int].exit.len() == 1
    }
}

/// Only a step that leaves a block changes where control came from: of every
/// call in progress that a step keeps, the function, the block and the last
/// label stay as they are, unless the call is the innermost and the step
/// leaves its block. A call that a step begins stands at the first block of
/// its function and has no last label.
pub proof fn lemma_last_label_changes_at_block_ends_only<P: BrilPointer>(
    p: ProgramView,
    s: StateView<P>,
    answer: Option<FloatAnswer>,
    i: int,
)
    requires
        s.wf(p),
        0 <= i < s.calls.len(),
        i < s.step(p, answer).0.calls.len(),
        !(i == s.calls.len() - 1 && leaves_block(p, s)),
    ensures
        s.step(p, answer).0.calls[i].func == s.calls[i].func,
        s.step(p, answer).0.calls[i].block == s.calls[i].block,
        s.step(p, answer).0.calls[i].last_label == s.calls[i].last_label,
        s.step(p, answer).0.calls.len() <= s.calls.len() + 1,
        s.step(p, answer).0.calls.len() == s.calls.len() + 1 ==> s.step(p, answer).0.top() == (
        Activation { func: s.step(p, answer).0.top().func, block: 0, instr: 0, last_label: None }),
{
    let a = s.top();
    let f = p.funcs[a.func as int];
    assert(activation_wf(p, a));
    if a.block < f.blocks.len() && a.instr < f.blocks[a.block as int].instrs.len() {
        let instr = f.blocks[a.block as int].instrs[a.instr as int];
        match instr {
            FlatView::Unary { op, dest, arg } => {
                let t = s.unary(p, op, dest, arg).0;
                assert(t.calls.len() == s.calls.len());
                assert(t.calls[i].last_label == s.calls[i].last_label);
            },
            FlatView::Binary { op, dest, arg0, arg1 } => {
                let r = binary_value(op, s.env.get(arg0), s.env.get(arg1), answer);
                let t = s.finish_value(p, dest, r).0;
                assert(t.calls[i].last_label == s.calls[i].last_label);
            },
            FlatView::Call { func, args, .. } => {
                let t = s.call(p, func, args).0;
                assert(t.calls[i].last_label == s.calls[i].last_label);
            },
            FlatView::EffectfulCall { func, args } => {
                let t = s.call(p, func, args).0;
                assert(t.calls[i].last_label == s.calls[i].last_label);
            },
            FlatView::Phi { dest, labels, args } => {
                let t = s.phi(p, dest, labels, args).0;
                assert(t.calls[i].last_label == s.calls[i].last_label);
            },
            FlatView::ReturnValue { arg } => {
                lemma_ret_keeps_callers(p, s, Some(s.env.get(arg)), i);
            },
            FlatView::ReturnVoid => {
                lemma_ret_keeps_callers(p, s, None, i);
            },
            FlatView::Print { args } => {
                let t = s.print(p, args, answer).0;
                assert(t.calls[i].last_label == s.calls[i].last_label);
            },
            FlatView::Store { arg0, arg1 } => {
                let t = s.store(p, arg0, arg1).0;
                assert(t.calls[i].last_label == s.calls[i].last_label);
            },
            FlatView::Free { arg } => {
                let t = s.free(p, arg).0;
                assert(t.calls[i].last_label == s.calls[i].last_label);
            },
            _ => {},
        }
    } else {
        lemma_ret_keeps_callers(p, s, None, i);
    }
}

/// A return keeps, of every call that stays in progress, the function, the
/// block and the last label.
pub proof fn lemma_ret_keeps_callers<P: BrilPointer>(
    p: ProgramView,
    s: StateView<P>,
    result: Option<Value<P>>,
    i: int,
)
    requires
        s.wf(p),
        0 <= i < s.calls.len(),
        i < s.ret(p, result).0.calls.len(),
    ensures
        s.ret(p, result).0.calls[i].func == s.calls[i].func,
        s.ret(p, result).0.calls[i].block == s.calls[i].block,
        s.ret(p, result).0.calls[i].last_label == s.calls[i].last_label,
        s.ret(p, result).0.calls.len() <= s.calls.len(),
{
    if s.calls.len() > 1 {
        let back = StateView { env: s.env.pop_frame(), calls: s.calls.drop_last(), ..s };
        assert(back.calls[i] == s.calls[i]);
        assert(back.advance().calls[i].last_label == s.calls[i].last_label);
    }
}

/// The state after the steps that are given `answers`, one after the other.
pub open spec fn after_steps<P: BrilPointer>(
    p: ProgramView,
    s: StateView<P>,
    answers: Seq<Option<FloatAnswer>>,
) -> StateView<P>
    decreases answers.len(),
{
    if answers.len() == 0 {
        s
    } else {
        after_steps(p, s, answers.drop_last()).step(p, answers.last()).0
    }
}

/// A call has no last label until it leaves a block for the first time: if
/// call `i` has none, then after any steps during which the call stays in
/// progress and never leaves a block, it still has none and stands in the
/// block it stood in. So for `main` from the start of a run, and for every
/// callee from its call, a `phi` in the first block is met without a last
/// label.
pub proof fn lemma_no_last_label_before_the_first_block_is_left<P: BrilPointer>(
    p: ProgramView,
    s: StateView<P>,
    answers: Seq<Option<FloatAnswer>>,
    i: int,
)
    requires
        p.wf(),
        s.wf(p),
        0 <= i < s.calls.len(),
        forall|k: int|
            0 <= k <= answers.len() ==> i < (#[trigger] after_steps(
                p,
                s,
                answers.take(k),
            )).calls.len(),
        forall|k: int|
            0 <= k < answers.len() ==> !(i == (#[trigger] after_steps(
                p,
                s,
                answers.take(k),
            )).calls.len() - 1 && leaves_block(p, after_steps(p, s, answers.take(k)))),
    ensures
        after_steps(p, s, answers).wf(p),
        after_steps(p, s, answers).calls[i].func == s.calls[i].func,
        after_steps(p, s, answers).calls[i].block == s.calls[i].block,
        after_steps(p, s, answers).calls[i].last_label == s.calls[i].last_label,
    decreases answers.len(),
{
    let n = answers.len() as int;
    if n > 0 {
        let shorter = answers.drop_last();
        assert(answers.take(n) =~= answers);
        assert(answers.take(n - 1) =~= shorter);
        assert forall|k: int| 0 <= k <= shorter.len() implies i < (#[trigger] after_steps(
            p,
            s,
            shorter.take(k),
        )).calls.len() by {
            assert(shorter.take(k) =~= answers.take(k));
        }
        assert forall|k: int| 0 <= k < shorter.len() implies !(i == (#[trigger] after_steps(
            p,
            s,
            shorter.take(k),
        )).calls.len() - 1 && leaves_block(p, after_steps(p, s, shorter.take(k)))) by {
            assert(shorter.take(k) =~= answers.take(k));
        }
        lemma_no_last_label_before_the_first_block_is_left(p, s, shorter, i);
        let before = after_steps(p, s, shorter);
        assert(before == after_steps(p, s, answers.take(n - 1)));
        assert(after_steps(p, s, answers) == before.step(p, answers.last()).0);
        assert(i < after_steps(p, s, answers.take(n)).calls.len());
        lemma_step_wf(p, before, answers.last());
        lemma_last_label_changes_at_block_ends_only(p, before, answers.last(), i);
    }
}

/// What was printed is never taken back: the output after a step starts with
/// the output before it.
pub proof fn lemma_step_extends_output<P: BrilPointer>(
    p: ProgramView,
    s: StateView<P>,
    answer: Option<FloatAnswer>,
)
    ensures
        s.out.is_prefix_of(s.step(p, answer).0.out),
{
    let t = s.step(p, answer).0;
    if t.out != s.out {
        let a = s.top();
        let instr = p.funcs[a.func as int].blocks[a.block as int].instrs[a.instr as int];
        if let FlatView::Print { args } = instr {
            if let Ok(line) = print_line(read_all(s.env, args), answer) {
                assert(t.out == s.out + line);
                assert((s.out + line).subrange(0, s.out.len() as int) =~= s.out);
            }
        }
    }
}

/// An integer division by zero fails with `DivisionByZero`, whatever the
/// dividend.
pub proof fn lemma_div_by_zero_fails<P: BrilPointer>(a: i64)
    ensures
        binary_value::<P>(ValueOps::Div, Value::Int(a), Value::Int(0), None) == Err::<
            Value<P>,
            InterpError,
        >(InterpError::DivisionByZero),
{
}

/// Integer addition, subtraction and multiplication never fail: the result
/// is the true result if it fits in 64 bits, and else the true result plus
/// or minus a multiple of 2^64.
pub proof fn lemma_int_arith_wraps<P: BrilPointer>(a: i64, b: i64)
    ensures
        binary_value::<P>(ValueOps::Add, Value::Int(a), Value::Int(b), None) == Ok::<
            Value<P>,
            InterpError,
        >(
            Value::Int(a.wrapping_add(b)),
        ),
        binary_value::<P>(ValueOps::Sub, Value::Int(a), Value::Int(b), None) == Ok::<
            Value<P>,
            InterpError,
        >(
            Value::Int(a.wrapping_sub(b)),
        ),
        binary_value::<P>(ValueOps::Mul, Value::Int(a), Value::Int(b), None) == Ok::<
            Value<P>,
            InterpError,
        >(
            Value::Int(a.wrapping_mul(b)),
        ),
        i64::MIN <= a + b <= i64::MAX ==> a.wrapping_add(b) == a + b,
        a + b > i64::MAX ==> a.wrapping_add(b) == a + b - 0x1_0000_0000_0000_0000,
        a + b < i64::MIN ==> a.wrapping_add(b) == a + b + 0x1_0000_0000_0000_0000,
        i64::MIN <= a - b <= i64::MAX ==> a.wrapping_sub(b) == a - b,
        i64::MIN <= a * b <= i64::MAX ==> a.wrapping_mul(b) == a * b,
        i64::MAX.wrapping_add(1) == i64::MIN,
{
}

/// A `phi` that runs before control has left any labelled block fails with
/// `NoLastLabel`; this is so in the first block of every function.
pub proof fn lemma_phi_needs_last_label<P: BrilPointer>(
    p: ProgramView,
    s: StateView<P>,
    dest: VarIndex,
    labels: Seq<LabelIndex>,
    args: Seq<VarIndex>,
    answer: Option<FloatAnswer>,
)
    requires
        s.calls.len() > 0,
        at_instr(p, s.top()),
        instr_at(p, s.top()) == (FlatView::Phi { dest, labels, args }),
        s.top().last_label is None,
    ensures
        s.step(p, answer).1 == Step::<P>::Fault(
            PositionalError { e: InterpError::NoLastLabel, pos: fault_pos(p, s.calls) },
        ),
        s.step(p, answer).0.halted,
{
}

/// A call starts its function without a last label: whatever the caller did,
/// the callee's first block has no block that control came from.
pub proof fn lemma_call_clears_last_label<P: BrilPointer>(
    p: ProgramView,
    s: StateView<P>,
    func: usize,
    args: Seq<VarIndex>,
)
    requires
        s.call(p, func, args).1 == Step::<P>::Continue,
    ensures
        s.call(p, func, args).0.top().last_label is None,
        s.call(p, func, args).0.top().block == 0,
        s.call(p, func, args).0.top().func == func,
{
}

/// A `phi` in the first block of a function fails: if the innermost call has
/// no last label, as `main` has at the start of a run and every callee when
/// it is called, and it then runs without leaving a block until it again is
/// the innermost call and stands at a `phi`, the next step fails with
/// `NoLastLabel` at the position of that `phi`, halts the machine, prints
/// nothing and changes no variable.
pub proof fn lemma_phi_in_the_first_block_fails<P: BrilPointer>(
    p: ProgramView,
    s: StateView<P>,
    answers: Seq<Option<FloatAnswer>>,
    answer: Option<FloatAnswer>,
)
    requires
        p.wf(),
        s.wf(p),
        s.top().last_label is None,
        forall|k: int|
            0 <= k <= answers.len() ==> s.calls.len() <= (#[trigger] after_steps(
                p,
                s,
                answers.take(k),
            )).calls.len(),
        forall|k: int|
            0 <= k < answers.len() ==> !(s.calls.len() == (#[trigger] after_steps(
                p,
                s,
                answers.take(k),
            )).calls.len() && leaves_block(p, after_steps(p, s, answers.take(k)))),
        after_steps(p, s, answers).calls.len() == s.calls.len(),
        at_instr(p, after_steps(p, s, answers).top()),
        instr_at(p, after_steps(p, s, answers).top()) is Phi,
    ensures
        after_steps(p, s, answers).top().block == s.top().block,
        after_steps(p, s, answers).step(p, answer).1 == Step::<P>::Fault(
            PositionalError {
                e: InterpError::NoLastLabel,
                pos: fault_pos(p, after_steps(p, s, answers).calls),
            },
        ),
        after_steps(p, s, answers).step(p, answer).0.halted,
        after_steps(p, s, answers).step(p, answer).0.out == after_steps(p, s, answers).out,
        after_steps(p, s, answers).step(p, answer).0.env == after_steps(p, s, answers).env,
{
    let i = s.calls.len() - 1;
    lemma_no_last_label_before_the_first_block_is_left(p, s, answers, i);
    let t = after_steps(p, s, answers);
    match instr_at(p, t.top()) {
        FlatView::Phi { dest, labels, args } => {
            lemma_phi_needs_last_label(p, t, dest, labels, args, answer);
        },
        _ => {},
    }
}

/// Whether the innermost call ends at the next step without a value: whether
/// it stands at a `ret` without operand, or behind the last instruction of a
/// block that has no one successor.
pub open spec fn returns_nothing<P: BrilPointer>(p: ProgramView, s: StateView<P>) -> bool {
    let a = s.top();
    let f = p.funcs[a.func as int];
    if at_instr(p, a) {
        instr_at(p, a) is ReturnVoid
    } else {
        !(a.block < f.blocks.len() && f.blocks[a.block as int].exit.len() == 1)
    }
}

/// A call that asks for a value fails if its function ends without one: the
/// step that ends the callee fails with `NoRetValForFunc` and the callee's
/// name, at the position of the call, and halts the machine. No slot is
/// written: the destination of the call keeps what it held.
pub proof fn lemma_value_call_needs_a_value<P: BrilPointer>(
    p: ProgramView,
    s: StateView<P>,
    answer: Option<FloatAnswer>,
)
    requires
        p.wf(),
        s.wf(p),
        s.calls.len() > 1,
        returns_nothing(p, s),
        instr_at(p, s.calls[s.calls.len() - 2]) is Call,
    ensures
        s.step(p, answer).1 == Step::<P>::Fault(
            PositionalError {
                e: InterpError::NoRetValForFunc(p.funcs[s.top().func as int].name),
                pos: fault_pos(p, s.calls.drop_last()),
            },
        ),
        s.step(p, answer).0.halted,
        s.step(p, answer).0.env == s.env.pop_frame(),
        s.step(p, answer).0.env.slots == s.env.slots,
        s.step(p, answer).0.out == s.out,
        s.step(p, answer).0.heap == s.heap,
{
    assert(s.calls.drop_last().last() == s.calls[s.calls.len() - 2]);
}

/// How many instructions the first block of `f` has.
pub open spec fn first_block_len(f: FunctionView) -> usize {
    if f.blocks.len() > 0 {
        f.blocks[0].instrs.len() as usize
    } else {
        0
    }
}

} // verus!
