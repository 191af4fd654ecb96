use vstd::prelude::*;
use vstd::string::StringExecFns;
use crate::allocator::{BrilAllocator, BrilPointer, HeapModel, Pointer, Value};
use crate::basic_heap::BasicHeap;
use crate::basic_block::{BBFunction, BBProgram, ProgramView};
use crate::environment::{EnvModel, Environment};
use crate::error::InterpError;
use crate::ir::{all_below, FlatIR, LabelIndex, VarIndex};
use crate::positional::{Position, PositionalError};
use crate::program::{Argument, Literal, Type, ValueOps};
use crate::semantics::{
    activation_wf, any_uninitialized, at_instr, binary_value, char_binary, copy_args,
    count_floats, decimal, fault_pos, float_bits, instr_at, int_binary, is_float_arith,
    is_float_compare, joined_text, lemma_position_of, lemma_step_wf, literal_value, pos_at,
    position_of, print_line, read_all, unary_value, Activation, FloatAnswer, FloatTask, Pause,
    StateView, Step,
};
use crate::text::{
    append_char, append_usize, escape_control_chars, escaped_char, int_to_char,
    optimized_val_output, parse_bool, parse_int, parsed_bool, parsed_int,
};

verus! {

/// The machine that runs a program: the stack, the heap, what was printed, and
/// the calls in progress.
pub struct State<'a, P: BrilPointer, H: BrilAllocator<P>> {
    prog: &'a BBProgram,
    env: Environment<P>,
    heap: H,
    out: String,
    instruction_count: usize,
    calls: Vec<Activation>,
    halted: bool,
}

impl<'a, P: BrilPointer, H: BrilAllocator<P>> View for State<'a, P, H> {
    type V = StateView<P>;

    closed spec fn view(&self) -> StateView<P> {
        StateView {
            env: self.env@,
            heap: self.heap.model(),
            out: self.out@,
            instruction_count: self.instruction_count,
            calls: self.calls@,
            halted: self.halted,
        }
    }
}

/// The runtime value of a literal.
pub fn value_of_literal<P: BrilPointer>(l: &Literal) -> (v: Value<P>)
    ensures
        v == literal_value::<P>(*l),
{
    match l {
        Literal::Int(i) => Value::Int(*i),
        Literal::Bool(b) => Value::Bool(*b),
        Literal::Float(f) => Value::Float(*f),
        Literal::Char(c) => Value::Char(*c),
    }
}

/// What an integer operation gives: arithmetic wraps around, and only a
/// division by zero fails.
pub fn eval_int<P: BrilPointer>(op: ValueOps, a: i64, b: i64) -> (r: Result<Value<P>, InterpError>)
    ensures
        r == int_binary::<P>(op, a, b),
{
    match op {
        ValueOps::Add => Ok(Value::Int(a.wrapping_add(b))),
        ValueOps::Sub => Ok(Value::Int(a.wrapping_sub(b))),
        ValueOps::Mul => Ok(Value::Int(a.wrapping_mul(b))),
        ValueOps::Div => {
            if b == 0 {
                Err(InterpError::DivisionByZero)
            } else {
                match a.checked_div(b) {
                    Some(q) => Ok(Value::Int(q)),
                    None => Ok(Value::Int(i64::MIN)),
                }
            }
        },
        ValueOps::Eq => Ok(Value::Bool(a == b)),
        ValueOps::Lt => Ok(Value::Bool(a < b)),
        ValueOps::Gt => Ok(Value::Bool(a > b)),
        ValueOps::Le => Ok(Value::Bool(a <= b)),
        ValueOps::Ge => Ok(Value::Bool(a >= b)),
        _ => Err(InterpError::BadValueType),
    }
}

/// What a character comparison gives.
pub fn eval_char<P: BrilPointer>(
    op: ValueOps,
    a: char,
    b: char,
) -> (r: Result<Value<P>, InterpError>)
    ensures
        r == char_binary::<P>(op, a, b),
{
    let x = a as u32;
    let y = b as u32;
    match op {
        ValueOps::Ceq => Ok(Value::Bool(x == y)),
        ValueOps::Clt => Ok(Value::Bool(x < y)),
        ValueOps::Cgt => Ok(Value::Bool(x > y)),
        ValueOps::Cle => Ok(Value::Bool(x <= y)),
        ValueOps::Cge => Ok(Value::Bool(x >= y)),
        _ => Err(InterpError::BadValueType),
    }
}

/// Whether `op` is floating point arithmetic.
pub fn float_arith(op: ValueOps) -> (r: bool)
    ensures
        r == is_float_arith(op),
{
    match op {
        ValueOps::Fadd | ValueOps::Fsub | ValueOps::Fmul | ValueOps::Fdiv => true,
        _ => false,
    }
}

/// Whether `op` compares floating point numbers.
pub fn float_compare(op: ValueOps) -> (r: bool)
    ensures
        r == is_float_compare(op),
{
    match op {
        ValueOps::Feq | ValueOps::Flt | ValueOps::Fgt | ValueOps::Fle | ValueOps::Fge => true,
        _ => false,
    }
}

/// What an operation of two operands gives on `a` and `b`; `answer` is the
/// result of the operation if it is one on floating point numbers.
pub fn eval_binary<P: BrilPointer>(
    op: ValueOps,
    a: &Value<P>,
    b: &Value<P>,
    answer: &Option<FloatAnswer>,
) -> (r: Result<
    Value<P>,
    InterpError,
>)
    ensures
        r == binary_value(op, *a, *b, *answer),
{
    match (a, b) {
        (Value::Int(x), Value::Int(y)) => eval_int(op, *x, *y),
        (Value::Bool(x), Value::Bool(y)) => match op {
            ValueOps::And => Ok(Value::Bool(*x && *y)),
            ValueOps::Or => Ok(Value::Bool(*x || *y)),
            _ => Err(InterpError::BadValueType),
        },
        (Value::Char(x), Value::Char(y)) => eval_char(op, *x, *y),
        (Value::Float(_), Value::Float(_)) => {
            let arith = float_arith(op);
            let compare = float_compare(op);
            if arith || compare {
                match answer {
                    Some(FloatAnswer::Number(bits)) => {
                        if arith {
                            Ok(Value::Float(*bits))
                        } else {
                            Err(InterpError::BadFloatAnswer)
                        }
                    },
                    Some(FloatAnswer::Truth(t)) => {
                        if compare {
                            Ok(Value::Bool(*t))
                        } else {
                            Err(InterpError::BadFloatAnswer)
                        }
                    },
                    _ => Err(InterpError::BadFloatAnswer),
                }
            } else {
                Err(InterpError::BadValueType)
            }
        },
        (Value::Pointer(p), Value::Int(y)) => match op {
            ValueOps::PtrAdd => Ok(Value::Pointer(p.add(*y))),
            _ => Err(InterpError::BadValueType),
        },
        _ => Err(InterpError::BadValueType),
    }
}

/// What an operation of one operand gives on `v`, where neither the heap nor
/// floating point is involved.
pub fn eval_unary<P: BrilPointer>(op: ValueOps, v: &Value<P>) -> (r: Result<Value<P>, InterpError>)
    ensures
        r == unary_value(op, *v),
{
    match (op, v) {
        (ValueOps::Id, _) => Ok(*v),
        (ValueOps::Not, Value::Bool(b)) => Ok(Value::Bool(!*b)),
        (ValueOps::Char2int, Value::Char(c)) => Ok(Value::Int((*c as u32) as i64)),
        (ValueOps::Int2char, Value::Int(i)) => match int_to_char(*i) {
            Some(c) => Ok(Value::Char(c)),
            None => Err(InterpError::ToCharError(*i)),
        },
        _ => Err(InterpError::BadValueType),
    }
}

/// The line that a `print` of `values` writes; `answer` holds the texts of the
/// floating point numbers among them.
pub fn format_line<P: BrilPointer>(
    values: &Vec<Value<P>>,
    answer: &Option<FloatAnswer>,
) -> (r: Result<
    String,
    InterpError,
>)
    ensures
        match r {
            Ok(line) => print_line(values@, *answer) == Ok::<Seq<char>, InterpError>(line@),
            Err(e) => print_line(values@, *answer) == Err::<Seq<char>, InterpError>(e),
        },
{
    let n = values.len();
    let (float_values, unwritten) = scan_values(values);
    let floats = float_values.len();
    if unwritten {
        return Err(InterpError::BadValueType);
    }
    let none: Vec<String> = Vec::new();
    let texts: &Vec<String> = if floats == 0 {
        &none
    } else {
        match answer {
            Some(FloatAnswer::Texts(t)) => {
                if t.len() == floats {
                    t
                } else {
                    return Err(InterpError::BadFloatAnswer);
                }
            },
            _ => {
                return Err(InterpError::BadFloatAnswer);
            },
        }
    };
    let mut line = String::new();
    let mut k: usize = 0;
    let mut i: usize = 0;
    while i < n
        invariant
            i <= n,
            n == values@.len(),
            !any_uninitialized(values@),
            k == count_floats(values@.take(i as int)),
            k <= i,
            line@ == joined_text(values@.take(i as int), texts@),
        decreases n - i,
    {
        proof {
            assert(values@.take(i as int + 1).drop_last() =~= values@.take(i as int));
            assert(values@.take(i as int + 1).last() == values@[i as int]);
            assert(values@[i as int] != Value::<P>::Uninitialized);
        }
        let ghost before = line@;
        if i > 0 {
            append_char(&mut line, ' ');
        }
        match &values[i] {
            Value::Float(_) => {
                if k < texts.len() {
                    line.append(texts[k].as_str());
                }
                k = k + 1;
            },
            v => {
                optimized_val_output(&mut line, v, "");
            },
        }
        i = i + 1;
        proof {
            let sep = if i == 1 {
                Seq::<char>::empty()
            } else {
                seq![' ']
            };
            assert(before + sep =~= if i == 1 {
                before
            } else {
                before.push(' ')
            });
            assert(line@ =~= joined_text(values@.take(i as int), texts@));
        }
    }
    assert(values@.take(n as int) =~= values@);
    append_char(&mut line, '\n');
    if floats == 0 {
        assert(texts@ =~= Seq::<String>::empty());
    }
    Ok(line)
}

impl<'a, P: BrilPointer, H: BrilAllocator<P>> State<'a, P, H> {
    /// The program that the machine runs.
    pub closed spec fn program(&self) -> ProgramView {
        self.prog@
    }

    /// What holds of the machine between steps: the program is well-formed,
    /// the state fits it, and the heap is in order.
    pub closed spec fn inv(&self) -> bool {
        &&& self.prog@.wf()
        &&& self@.wf(self.prog@)
        &&& self.heap.inv()
    }

    /// In a machine that is in order, the program is well-formed, the state
    /// fits it, some call is in progress, and the heap is well-formed.
    pub proof fn lemma_inv(&self)
        requires
            self.inv(),
        ensures
            self.program().wf(),
            self@.wf(self.program()),
            self@.calls.len() > 0,
            self@.heap.wf(),
    {
        self.heap.lemma_inv_wf();
    }

    /// The machine about to run function `main` of `prog`, on an environment
    /// that holds its arguments.
    pub fn new(prog: &'a BBProgram, main: usize, env: Environment<P>, heap: H) -> (r: Self)
        requires
            main < prog@.funcs.len(),
            env@.wf(),
            env@.stack_pointers.len() == 0,
            env@.current_frame_size == prog@.funcs[main as int].num_of_vars,
            heap.inv(),
        ensures
            r.inv(),
            r.program() == prog@,
            r@ == StateView::start(prog@, main, env@, heap.model()),
    {
        let func = prog.function(main);
        let count = if func.blocks.len() > 0 {
            func.blocks[0].flat_instrs.len()
        } else {
            0
        };
        let mut calls: Vec<Activation> = Vec::new();
        calls.push(Activation { func: main, block: 0, instr: 0, last_label: None });
        let r = State {
            prog,
            env,
            heap,
            out: String::new(),
            instruction_count: count,
            calls,
            halted: false,
        };
        proof {
            assert(prog@.funcs[main as int] == func@);
            assert(r@.calls =~= seq![Activation { func: main, block: 0, instr: 0, last_label: None }]);
            assert(r@.calls[0] == Activation { func: main, block: 0, instr: 0, last_label: None });
        }
        r
    }

    /// Whether the program has ended or failed.
    pub fn is_halted(&self) -> (b: bool)
        ensures
            b == self@.halted,
    {
        self.halted
    }

    /// Everything printed so far.
    pub fn output(&self) -> (r: &String)
        ensures
            r@ == self@.out,
    {
        &self.out
    }

    /// Hands over everything printed so far; what is printed from now on
    /// starts afresh.
    pub fn take_output(&mut self) -> (r: String)
        ensures
            r@ == old(self)@.out,
            final(self)@ == (StateView { out: Seq::empty(), ..old(self)@ }),
            final(self).program() == old(self).program(),
            old(self).inv() ==> final(self).inv(),
    {
        let mut taken = String::new();
        core::mem::swap(&mut self.out, &mut taken);
        taken
    }

    /// How many instructions were begun, counted block by block.
    pub fn instruction_count(&self) -> (n: usize)
        ensures
            n == self@.instruction_count,
    {
        self.instruction_count
    }

    /// Whether every allocation has been freed.
    pub fn heap_is_empty(&self) -> (b: bool)
        requires
            self.inv(),
        ensures
            b == self@.heap.is_empty(),
    {
        self.heap.is_empty()
    }

    /// The source position of the instruction that the call `a` stands at.
    fn position_of(&self, a: Activation) -> (r: Option<Position>)
        ensures
            r == pos_at(self.prog@, a),
    {
        let prog = self.prog;
        if a.func < prog.num_funcs() {
            let func = prog.function(a.func);
            assert(self.prog@.funcs[a.func as int] == func@);
            if a.block < func.blocks.len() {
                let block = &func.blocks[a.block];
                assert(func@.blocks[a.block as int] == block@);
                if a.instr < block.flat_instrs.len() && a.instr < block.positions.len() {
                    return block.positions[a.instr];
                }
            }
        }
        None
    }

    /// Stops the machine with the fault `e`, at the position of the innermost
    /// instruction that has one.
    fn fail(&mut self, e: InterpError) -> (r: Step<P>)
        ensures
            final(self).prog == old(self).prog,
            old(self).heap.inv() ==> final(self).heap.inv(),
            (final(self)@, r) == old(self)@.fault(old(self).prog@, e),
    {
        let mut i = self.calls.len();
        let mut pos: Option<Position> = None;
        assert(self.calls@.take(i as int) =~= self.calls@);
        while i > 0 && pos.is_none()
            invariant
                i <= self.calls@.len(),
                fault_pos(self.prog@, self.calls@) == (if pos is Some {
                    pos
                } else {
                    fault_pos(self.prog@, self.calls@.take(i as int))
                }),
            decreases i,
        {
            proof {
                assert(self.calls@.take(i as int).drop_last() =~= self.calls@.take(i as int - 1));
                assert(self.calls@.take(i as int).last() == self.calls@[i as int - 1]);
            }
            i = i - 1;
            pos = self.position_of(self.calls[i]);
        }
        self.halted = true;
        Step::Fault(PositionalError { e, pos })
    }

    /// Moves the innermost call one instruction further on.
    fn advance(&mut self)
        requires
            old(self)@.calls.len() > 0,
            old(self)@.top().instr < usize::MAX,
        ensures
            final(self).prog == old(self).prog,
            old(self).heap.inv() ==> final(self).heap.inv(),
            final(self)@ == old(self)@.advance(),
    {
        let n = self.calls.len();
        let a = self.calls[n - 1];
        self.calls[n - 1] = Activation {
            func: a.func,
            block: a.block,
            instr: a.instr + 1,
            last_label: a.last_label,
        };
    }

    /// Writes `v` to slot `dest` and moves on.
    fn assign(&mut self, dest: VarIndex, v: Value<P>)
        requires
            old(self)@.calls.len() > 0,
            old(self)@.top().instr < usize::MAX,
            old(self)@.env.wf(),
            dest < old(self)@.env.current_frame_size,
        ensures
            final(self).prog == old(self).prog,
            old(self).heap.inv() ==> final(self).heap.inv(),
            final(self)@ == old(self)@.assign(dest, v),
    {
        self.env.set(dest, v);
        self.advance();
    }

    /// Assigns a computed value, or stops with the error.
    fn finish_value(&mut self, dest: VarIndex, r: Result<Value<P>, InterpError>) -> (step: Step<P>)
        requires
            old(self)@.calls.len() > 0,
            old(self)@.top().instr < usize::MAX,
            old(self)@.env.wf(),
            dest < old(self)@.env.current_frame_size,
        ensures
            final(self).prog == old(self).prog,
            old(self).heap.inv() ==> final(self).heap.inv(),
            (final(self)@, step) == old(self)@.finish_value(old(self).prog@, dest, r),
    {
        match r {
            Ok(v) => {
                self.assign(dest, v);
                Step::Continue
            },
            Err(e) => self.fail(e),
        }
    }

    /// Lets control go to block `next` of the function that runs.
    fn enter_block(&mut self, next: LabelIndex)
        requires
            old(self).inv(),
            old(self)@.top().block < old(self).prog@.funcs[old(self)@.top().func as int].blocks.len(),
            next < old(self).prog@.funcs[old(self)@.top().func as int].blocks.len(),
        ensures
            final(self).prog == old(self).prog,
            final(self).heap.inv(),
            final(self)@ == old(self)@.enter_block(old(self).prog@, next),
    {
        let prog = self.prog;
        let n = self.calls.len();
        let a = self.calls[n - 1];
        proof {
            assert(activation_wf(self.prog@, self@.calls[n - 1]));
        }
        let func = prog.function(a.func);
        proof {
            assert(self.prog@.funcs[a.func as int] == func@);
            assert(func@.blocks[a.block as int] == func.blocks@[a.block as int]@);
            assert(func@.blocks[next as int] == func.blocks@[next as int]@);
        }
        let last_label = if func.blocks[a.block].label.is_some() {
            Some(a.block)
        } else {
            None
        };
        self.instruction_count = self.instruction_count.wrapping_add(
            func.blocks[next].flat_instrs.len(),
        );
        self.calls[n - 1] = Activation { func: a.func, block: next, instr: 0, last_label };
    }

    /// The values of the variables `args` in the current frame.
    fn read_args(&self, args: &Vec<VarIndex>) -> (r: Vec<Value<P>>)
        requires
            self@.env.wf(),
            all_below(args@, self@.env.current_frame_size as nat),
        ensures
            r@ == read_all(self@.env, args@),
    {
        let mut values: Vec<Value<P>> = Vec::new();
        let mut i: usize = 0;
        while i < args.len()
            invariant
                i <= args.len(),
                self@.env.wf(),
                all_below(args@, self@.env.current_frame_size as nat),
                values@.len() == i,
                forall|j: int| 0 <= j < i ==> values@[j] == self@.env.get(#[trigger] args@[j]),
            decreases args.len() - i,
        {
            assert(args@[i as int] < self@.env.current_frame_size);
            values.push(*self.env.get(args[i]));
            i = i + 1;
        }
        assert(values@ =~= read_all(self@.env, args@));
        values
    }

    /// Sets up the frame of `callee` with the values of the caller's
    /// variables `args` in its argument slots.
    fn make_func_args(&mut self, callee: &BBFunction, args: &Vec<VarIndex>)
        requires
            old(self)@.env.wf(),
            old(self)@.env.can_push(callee@.num_of_vars),
            all_below(args@, old(self)@.env.current_frame_size as nat),
            all_below(callee@.args_as_nums, callee@.num_of_vars as nat),
            args@.len() == callee@.args_as_nums.len(),
        ensures
            final(self).prog == old(self).prog,
            old(self).heap.inv() ==> final(self).heap.inv(),
            final(self)@ == (StateView {
                env: copy_args(
                    old(self)@.env.push_frame(callee@.num_of_vars),
                    args@,
                    callee@.args_as_nums,
                    args@.len() as int,
                ),
                ..old(self)@
            }),
    {
        self.env.push_frame(callee.num_of_vars);
        let ghost pushed = self.env@;
        let mut i: usize = 0;
        while i < args.len()
            invariant
                i <= args.len(),
                args@.len() == callee@.args_as_nums.len(),
                callee@.args_as_nums == callee.args_as_nums@,
                pushed.wf(),
                pushed == old(self)@.env.push_frame(callee@.num_of_vars),
                all_below(args@, old(self)@.env.current_frame_size as nat),
                all_below(callee@.args_as_nums, pushed.current_frame_size as nat),
                old(self)@.env.wf(),
                self.env@ == copy_args(pushed, args@, callee@.args_as_nums, i as int),
                self.prog == old(self).prog,
                self.heap == old(self).heap,
                self.out == old(self).out,
                self.instruction_count == old(self).instruction_count,
                self.calls == old(self).calls,
                self.halted == old(self).halted,
            decreases args.len() - i,
        {
            proof {
                crate::semantics::lemma_copy_args_shape(
                    pushed,
                    args@,
                    callee@.args_as_nums,
                    i as int,
                );
                assert(args@[i as int] < old(self)@.env.current_frame_size);
                assert(callee@.args_as_nums[i as int] < pushed.current_frame_size);
            }
            let arg = *self.env.get_from_last_frame(args[i]);
            self.env.set(callee.args_as_nums[i], arg);
            i = i + 1;
        }
    }

    /// Calls function `func` on the variables `args`.
    fn do_call(&mut self, func: usize, args: &Vec<VarIndex>) -> (r: Step<P>)
        requires
            old(self).inv(),
            func < old(self).prog@.funcs.len(),
            all_below(args@, old(self)@.env.current_frame_size as nat),
        ensures
            final(self).prog == old(self).prog,
            final(self).heap.inv(),
            (final(self)@, r) == old(self)@.call(old(self).prog@, func, args@),
    {
        let prog = self.prog;
        let callee = prog.function(func);
        proof {
            assert(self.prog@.funcs[func as int] == callee@);
            assert(callee@.wf(self.prog@.funcs.len()));
        }
        if args.len() != callee.args_as_nums.len() {
            return self.fail(InterpError::BadNumFuncArgs(callee.args_as_nums.len(), args.len()));
        }
        if !self.env.can_push(callee.num_of_vars) {
            return self.fail(InterpError::StackOverflow);
        }
        self.make_func_args(callee, args);
        let count = if callee.blocks.len() > 0 {
            proof {
                assert(callee@.blocks[0] == callee.blocks@[0]@);
            }
            callee.blocks[0].flat_instrs.len()
        } else {
            0
        };
        self.instruction_count = self.instruction_count.wrapping_add(count);
        self.calls.push(Activation { func, block: 0, instr: 0, last_label: None });
        Step::Continue
    }

    /// Returns `result` from the function that runs.
    fn do_return(&mut self, result: Option<Value<P>>) -> (r: Step<P>)
        requires
            old(self).inv(),
        ensures
            final(self).prog == old(self).prog,
            final(self).heap.inv(),
            (final(self)@, r) == old(self)@.ret(old(self).prog@, result),
    {
        let prog = self.prog;
        let n = self.calls.len();
        if n <= 1 {
            self.halted = true;
            return Step::Done(result);
        }
        let callee = self.calls[n - 1];
        let caller = self.calls[n - 2];
        proof {
            assert(activation_wf(self.prog@, self@.calls[n - 1]));
            assert(at_instr(self.prog@, self@.calls[n - 2]));
        }
        self.calls.pop();
        self.env.pop_frame();
        let func = prog.function(caller.func);
        let block = &func.blocks[caller.block];
        proof {
            let p = self.prog@;
            assert(self@.calls =~= old(self)@.calls.drop_last());
            assert(p.funcs[caller.func as int] == func@);
            assert(func@.blocks[caller.block as int] == block@);
            assert(block@.instrs[caller.instr as int] == block.flat_instrs@[caller.instr as int]@);
            assert(func@.wf(p.funcs.len()));
            assert(block@.wf(func@.num_of_vars as nat, func@.blocks.len(), p.funcs.len()));
            assert(block@.instrs[caller.instr as int].wf(
                func@.num_of_vars as nat,
                func@.blocks.len(),
                p.funcs.len(),
            ));
            assert(old(self)@.env.stack_pointers[n - 2].1 == func@.num_of_vars);
            assert(self@.top() == caller);
            vstd::std_specs::vec::axiom_spec_len(&block.flat_instrs);
        }
        match &block.flat_instrs[caller.instr] {
            FlatIR::Call { dest, .. } => match result {
                Some(v) => {
                    self.assign(*dest, v);
                    Step::Continue
                },
                None => {
                    self.fail(
                        InterpError::NoRetValForFunc(prog.function(callee.func).name.clone()),
                    )
                },
            },
            FlatIR::EffectfulCall { .. } => {
                self.advance();
                Step::Continue
            },
            _ => self.fail(InterpError::BadValueType),
        }
    }

    /// The place of `label` among `labels`, if it is there.
    fn find_label(labels: &Vec<LabelIndex>, label: LabelIndex) -> (r: Option<usize>)
        ensures
            match r {
                Some(k) => position_of(labels@, label) == Some(k as int),
                None => position_of(labels@, label) is None,
            },
    {
        let mut i: usize = 0;
        assert(labels@.take(0) =~= Seq::empty());
        while i < labels.len()
            invariant
                i <= labels.len(),
                position_of(labels@.take(i as int), label) is None,
            decreases labels.len() - i,
        {
            proof {
                assert(labels@.take(i as int + 1).drop_last() =~= labels@.take(i as int));
            }
            if labels[i] == label {
                proof {
                    Self::lemma_position_stays(labels@, label, i as int + 1);
                }
                return Some(i);
            }
            i = i + 1;
        }
        assert(labels@.take(labels@.len() as int) =~= labels@);
        None
    }

    /// Where a label is found among the first labels, it is found among all.
    proof fn lemma_position_stays(labels: Seq<LabelIndex>, label: LabelIndex, n: int)
        requires
            0 <= n <= labels.len(),
            position_of(labels.take(n), label) is Some,
        ensures
            position_of(labels, label) == position_of(labels.take(n), label),
        decreases labels.len() - n,
    {
        if n < labels.len() {
            assert(labels.take(n + 1).drop_last() =~= labels.take(n));
            Self::lemma_position_stays(labels, label, n + 1);
        } else {
            assert(labels.take(n) =~= labels);
        }
    }

    /// Runs a `phi`.
    fn do_phi(&mut self, dest: VarIndex, labels: &Vec<LabelIndex>, args: &Vec<VarIndex>) -> (r:
        Step<P>)
        requires
            old(self).inv(),
            old(self)@.top().instr < usize::MAX,
            dest < old(self)@.env.current_frame_size,
            labels@.len() == args@.len(),
            all_below(args@, old(self)@.env.current_frame_size as nat),
        ensures
            final(self).prog == old(self).prog,
            final(self).heap.inv(),
            (final(self)@, r) == old(self)@.phi(old(self).prog@, dest, labels@, args@),
    {
        let prog = self.prog;
        let a = self.calls[self.calls.len() - 1];
        proof {
            assert(activation_wf(self.prog@, self@.calls[self.calls@.len() - 1]));
        }
        match a.last_label {
            None => self.fail(InterpError::NoLastLabel),
            Some(last) => match Self::find_label(labels, last) {
                None => {
                    let func = prog.function(a.func);
                    proof {
                        assert(self.prog@.funcs[a.func as int] == func@);
                        assert(func@.blocks[last as int] == func.blocks@[last as int]@);
                    }
                    match &func.blocks[last].label {
                        Some(name) => self.fail(InterpError::PhiMissingLabel(name.clone())),
                        None => self.fail(InterpError::NoLastLabel),
                    }
                },
                Some(k) => {
                    proof {
                        lemma_position_of(labels@, last);
                        assert(args@[k as int] < self@.env.current_frame_size);
                    }
                    let v = *self.env.get(args[k]);
                    self.assign(dest, v);
                    Step::Continue
                },
            },
        }
    }

    /// Runs an operation of one operand.
    fn do_unary(&mut self, op: ValueOps, dest: VarIndex, arg: VarIndex) -> (r: Step<P>)
        requires
            old(self).inv(),
            old(self)@.top().instr < usize::MAX,
            dest < old(self)@.env.current_frame_size,
            arg < old(self)@.env.current_frame_size,
        ensures
            final(self).prog == old(self).prog,
            final(self).heap.inv(),
            (final(self)@, r) == old(self)@.unary(old(self).prog@, op, dest, arg),
    {
        let v = *self.env.get(arg);
        match op {
            ValueOps::Alloc => match v {
                Value::Int(amount) => {
                    let r = self.heap.allocate(amount);
                    self.finish_value(dest, r)
                },
                _ => self.fail(InterpError::BadValueType),
            },
            ValueOps::Load => match v {
                Value::Pointer(ptr) => {
                    let r = match self.heap.read(&ptr) {
                        Ok(cell) => Ok(*cell),
                        Err(e) => Err(e),
                    };
                    self.finish_value(dest, r)
                },
                _ => self.fail(InterpError::BadValueType),
            },
            _ => {
                let r = eval_unary(op, &v);
                self.finish_value(dest, r)
            },
        }
    }

    /// Runs a `store`.
    fn do_store(&mut self, arg0: VarIndex, arg1: VarIndex) -> (r: Step<P>)
        requires
            old(self).inv(),
            old(self)@.top().instr < usize::MAX,
            arg0 < old(self)@.env.current_frame_size,
            arg1 < old(self)@.env.current_frame_size,
        ensures
            final(self).prog == old(self).prog,
            final(self).heap.inv(),
            (final(self)@, r) == old(self)@.store(old(self).prog@, arg0, arg1),
    {
        match *self.env.get(arg0) {
            Value::Pointer(ptr) => {
                let v = *self.env.get(arg1);
                match self.heap.write(&ptr, v) {
                    Ok(_) => {
                        self.advance();
                        Step::Continue
                    },
                    Err(e) => self.fail(e),
                }
            },
            _ => self.fail(InterpError::BadValueType),
        }
    }

    /// Runs a `free`.
    fn do_free(&mut self, arg: VarIndex) -> (r: Step<P>)
        requires
            old(self).inv(),
            old(self)@.top().instr < usize::MAX,
            arg < old(self)@.env.current_frame_size,
        ensures
            final(self).prog == old(self).prog,
            final(self).heap.inv(),
            (final(self)@, r) == old(self)@.free(old(self).prog@, arg),
    {
        match *self.env.get(arg) {
            Value::Pointer(ptr) => match self.heap.free(&ptr) {
                Ok(_) => {
                    self.advance();
                    Step::Continue
                },
                Err(e) => self.fail(e),
            },
            _ => self.fail(InterpError::BadValueType),
        }
    }

    /// Runs a `print`.
    fn do_print(&mut self, args: &Vec<VarIndex>, answer: &Option<FloatAnswer>) -> (r: Step<P>)
        requires
            old(self).inv(),
            old(self)@.top().instr < usize::MAX,
            all_below(args@, old(self)@.env.current_frame_size as nat),
        ensures
            final(self).prog == old(self).prog,
            final(self).heap.inv(),
            (final(self)@, r) == old(self)@.print(old(self).prog@, args@, *answer),
    {
        let values = self.read_args(args);
        match format_line(&values, answer) {
            Ok(line) => {
                self.out.append(line.as_str());
                self.advance();
                Step::Continue
            },
            Err(e) => self.fail(e),
        }
    }

    /// Runs the instruction `instr`, which writes a variable and which the
    /// innermost call stands at.
    fn execute_value_op(&mut self, instr: &FlatIR, answer: &Option<FloatAnswer>) -> (r: Step<P>)
        requires
            old(self).inv(),
            at_instr(old(self).prog@, old(self)@.top()),
            instr@ == instr_at(old(self).prog@, old(self)@.top()),
            old(self)@.top().instr < usize::MAX,
            instr@.wf(
                old(self)@.env.current_frame_size as nat,
                old(self).prog@.funcs[old(self)@.top().func as int].blocks.len(),
                old(self).prog@.funcs.len(),
            ),
            instr is Const || instr is FloatConst || instr is Unary || instr is Binary || instr is Call
                || instr is Phi,
        ensures
            final(self).prog == old(self).prog,
            final(self).heap.inv(),
            (final(self)@, r) == old(self)@.execute(old(self).prog@, instr@, *answer),
    {
        match instr {
            FlatIR::Const { dest, value } => {
                self.assign(*dest, value_of_literal(value));
                Step::Continue
            },
            FlatIR::FloatConst { dest, .. } => match answer {
                Some(FloatAnswer::Number(bits)) => {
                    self.assign(*dest, Value::Float(*bits));
                    Step::Continue
                },
                _ => self.fail(InterpError::BadFloatAnswer),
            },
            FlatIR::Unary { op, dest, arg } => self.do_unary(*op, *dest, *arg),
            FlatIR::Binary { op, dest, arg0, arg1 } => {
                let r = eval_binary(*op, self.env.get(*arg0), self.env.get(*arg1), answer);
                self.finish_value(*dest, r)
            },
            FlatIR::Call { func, args, .. } => self.do_call(*func, args),
            FlatIR::Phi { dest, labels, args } => self.do_phi(*dest, labels, args),
            _ => Step::Continue,
        }
    }

    /// Runs the instruction `instr`, which writes no variable and which the
    /// innermost call stands at.
    fn execute_effect_op(&mut self, instr: &FlatIR, answer: &Option<FloatAnswer>) -> (r: Step<P>)
        requires
            old(self).inv(),
            at_instr(old(self).prog@, old(self)@.top()),
            instr@ == instr_at(old(self).prog@, old(self)@.top()),
            old(self)@.top().instr < usize::MAX,
            instr@.wf(
                old(self)@.env.current_frame_size as nat,
                old(self).prog@.funcs[old(self)@.top().func as int].blocks.len(),
                old(self).prog@.funcs.len(),
            ),
            !(instr is Const || instr is FloatConst || instr is Unary || instr is Binary
                || instr is Call || instr is Phi),
        ensures
            final(self).prog == old(self).prog,
            final(self).heap.inv(),
            (final(self)@, r) == old(self)@.execute(old(self).prog@, instr@, *answer),
    {
        match instr {
            FlatIR::Nop => {
                self.advance();
                Step::Continue
            },
            FlatIR::Jump { dest } => {
                self.enter_block(*dest);
                Step::Continue
            },
            FlatIR::Branch { arg, true_dest, false_dest } => match *self.env.get(*arg) {
                Value::Bool(b) => {
                    self.enter_block(
                        if b {
                            *true_dest
                        } else {
                            *false_dest
                        },
                    );
                    Step::Continue
                },
                _ => self.fail(InterpError::BadValueType),
            },
            FlatIR::ReturnValue { arg } => {
                let v = *self.env.get(*arg);
                self.do_return(Some(v))
            },
            FlatIR::ReturnVoid => self.do_return(None),
            FlatIR::EffectfulCall { func, args } => self.do_call(*func, args),
            FlatIR::Print { args } => self.do_print(args, answer),
            FlatIR::Store { arg0, arg1 } => self.do_store(*arg0, *arg1),
            FlatIR::Free { arg } => self.do_free(*arg),
            _ => Step::Continue,
        }
    }

    /// Runs the instruction `instr`, which the innermost call stands at.
    fn execute(&mut self, instr: &FlatIR, answer: &Option<FloatAnswer>) -> (r: Step<P>)
        requires
            old(self).inv(),
            at_instr(old(self).prog@, old(self)@.top()),
            instr@ == instr_at(old(self).prog@, old(self)@.top()),
        ensures
            final(self).prog == old(self).prog,
            final(self).heap.inv(),
            (final(self)@, r) == old(self)@.execute(old(self).prog@, instr@, *answer),
    {
        let prog = self.prog;
        proof {
            let p = self.prog@;
            let a = self@.top();
            let f = p.funcs[a.func as int];
            let b = f.blocks[a.block as int];
            assert(f.wf(p.funcs.len()));
            assert(b.wf(f.num_of_vars as nat, f.blocks.len(), p.funcs.len()));
            assert(b.instrs[a.instr as int].wf(f.num_of_vars as nat, f.blocks.len(), p.funcs.len()));
        }
        let ghost top = self@.top();
        let func = prog.function(self.calls[self.calls.len() - 1].func);
        proof {
            let block = func.blocks@[top.block as int];
            assert(func@.blocks[top.block as int] == block@);
            vstd::std_specs::vec::axiom_spec_len(&block.flat_instrs);
        }
        match instr {
            FlatIR::Const { .. } | FlatIR::FloatConst { .. } | FlatIR::Unary { .. }
            | FlatIR::Binary { .. } | FlatIR::Call { .. } | FlatIR::Phi { .. } => {
                self.execute_value_op(instr, answer)
            },
            _ => self.execute_effect_op(instr, answer),
        }
    }

    /// One step of the machine: runs the instruction that the innermost call
    /// stands at, or leaves the block if the call stands at its end.
    /// `answer` is what the instruction needs if it works on floating point
    /// numbers; see [`State::float_task`].
    pub fn step(&mut self, answer: Option<FloatAnswer>) -> (r: Step<P>)
        requires
            old(self).inv(),
            !old(self)@.halted,
        ensures
            r is Continue ==> !final(self)@.halted,
            final(self).inv(),
            final(self).program() == old(self).program(),
            (final(self)@, r) == old(self)@.step(old(self).program(), answer),
    {
        let prog = self.prog;
        let a = self.calls[self.calls.len() - 1];
        proof {
            lemma_step_wf(self.prog@, self@, answer);
            assert(activation_wf(self.prog@, self@.calls[self.calls@.len() - 1]));
        }
        let func = prog.function(a.func);
        proof {
            assert(self.prog@.funcs[a.func as int] == func@);
            assert(func@.wf(self.prog@.funcs.len()));
        }
        if a.block >= func.blocks.len() {
            return self.do_return(None);
        }
        let block = &func.blocks[a.block];
        proof {
            assert(func@.blocks[a.block as int] == block@);
            assert(block@.wf(func@.num_of_vars as nat, func@.blocks.len(), self.prog@.funcs.len()));
        }
        if a.instr >= block.flat_instrs.len() {
            if block.exit.len() == 1 {
                proof {
                    assert(block@.exit[0] < func@.blocks.len());
                }
                self.enter_block(block.exit[0]);
                Step::Continue
            } else {
                self.do_return(None)
            }
        } else {
            proof {
                assert(block@.instrs[a.instr as int] == block.flat_instrs@[a.instr as int]@);
            }
            self.execute(&block.flat_instrs[a.instr], &answer)
        }
    }

    /// What the next step needs done on floating point numbers, if anything.
    /// The answer is what [`State::step`] is to be given.
    pub fn float_task(&self) -> (r: Option<FloatTask>)
        requires
            self.inv(),
        ensures
            r == self@.float_task(self.program()),
    {
        let prog = self.prog;
        if self.halted {
            return None;
        }
        let a = self.calls[self.calls.len() - 1];
        proof {
            assert(activation_wf(self.prog@, self@.calls[self.calls@.len() - 1]));
        }
        let func = prog.function(a.func);
        proof {
            assert(self.prog@.funcs[a.func as int] == func@);
            assert(func@.wf(self.prog@.funcs.len()));
        }
        if a.block >= func.blocks.len() {
            return None;
        }
        let block = &func.blocks[a.block];
        proof {
            assert(func@.blocks[a.block as int] == block@);
            assert(block@.wf(func@.num_of_vars as nat, func@.blocks.len(), self.prog@.funcs.len()));
        }
        if a.instr >= block.flat_instrs.len() {
            return None;
        }
        proof {
            assert(block@.instrs[a.instr as int] == block.flat_instrs@[a.instr as int]@);
            assert(block@.instrs[a.instr as int].wf(
                func@.num_of_vars as nat,
                func@.blocks.len(),
                self.prog@.funcs.len(),
            ));
        }
        match &block.flat_instrs[a.instr] {
            FlatIR::FloatConst { value, .. } => Some(FloatTask::FromInt(*value)),
            FlatIR::Binary { op, arg0, arg1, .. } => match (
                self.env.get(*arg0),
                self.env.get(*arg1),
            ) {
                (Value::Float(lhs), Value::Float(rhs)) => {
                    if float_arith(*op) || float_compare(*op) {
                        Some(FloatTask::Binary { op: *op, lhs: *lhs, rhs: *rhs })
                    } else {
                        None
                    }
                },
                _ => None,
            },
            FlatIR::Print { args } => {
                let values = self.read_args(args);
                let (floats, unwritten) = scan_values(&values);
                if !unwritten && floats.len() > 0 {
                    Some(FloatTask::Format)
                } else {
                    None
                }
            },
            _ => None,
        }
    }

    /// The bit patterns of the floating point numbers that the next `print`
    /// shows, in order: what [`FloatTask::Format`] asks the texts of.
    pub fn floats_to_print(&self) -> (r: Vec<u64>)
        requires
            self.inv(),
        ensures
            self@.float_task(self.program()) == Some(FloatTask::Format) ==> r@ == float_bits(
                read_all(
                    self@.env,
                    instr_at(self.program(), self@.top())->Print_args,
                ),
            ),
            !(self@.float_task(self.program()) == Some(FloatTask::Format)) ==> r@.len() == 0,
    {
        let prog = self.prog;
        let none: Vec<u64> = Vec::new();
        match self.float_task() {
            Some(FloatTask::Format) => {
                let a = self.calls[self.calls.len() - 1];
                let func = prog.function(a.func);
                let block = &func.blocks[a.block];
                proof {
                    assert(self.prog@.funcs[a.func as int] == func@);
                    assert(func@.wf(self.prog@.funcs.len()));
                    assert(func@.blocks[a.block as int] == block@);
                    assert(block@.wf(
                        func@.num_of_vars as nat,
                        func@.blocks.len(),
                        self.prog@.funcs.len(),
                    ));
                    assert(block@.instrs[a.instr as int] == block.flat_instrs@[a.instr as int]@);
                    assert(block@.instrs[a.instr as int].wf(
                        func@.num_of_vars as nat,
                        func@.blocks.len(),
                        self.prog@.funcs.len(),
                    ));
                }
                match &block.flat_instrs[a.instr] {
                    FlatIR::Print { args } => {
                        let values = self.read_args(args);
                        let (floats, _) = scan_values(&values);
                        floats
                    },
                    _ => none,
                }
            },
            _ => none,
        }
    }

    /// Runs the machine for at most `fuel` steps. The run stops where the
    /// program ends or fails, before an instruction that needs floating
    /// point work, and when the steps are used up.
    pub fn run(&mut self, fuel: u64) -> (r: Pause<P>)
        requires
            old(self).inv(),
            !old(self)@.halted,
        ensures
            final(self).inv(),
            final(self).program() == old(self).program(),
            (final(self)@, r) == old(self)@.run(old(self).program(), fuel as nat),
    {
        let mut left = fuel;
        loop
            invariant
                self.inv(),
                !self@.halted,
                self.program() == old(self).program(),
                old(self)@.run(old(self).program(), fuel as nat) == self@.run(
                    self.program(),
                    left as nat,
                ),
            decreases left,
        {
            match self.float_task() {
                Some(task) => {
                    return Pause::Float(task);
                },
                None => {},
            }
            if left == 0 {
                return Pause::OutOfFuel;
            }
            match self.step(None) {
                Step::Continue => {
                    left = left - 1;
                },
                Step::Done(v) => {
                    return Pause::Done(v);
                },
                Step::Fault(e) => {
                    return Pause::Fault(e);
                },
            }
        }
    }
}

/// The bit patterns of the floating point numbers among `values`, and whether
/// some value was never written.
pub fn scan_values<P: BrilPointer>(values: &Vec<Value<P>>) -> (r: (Vec<u64>, bool))
    ensures
        r.0@ == float_bits(values@),
        r.0@.len() == count_floats(values@),
        r.1 == any_uninitialized(values@),
{
    let mut floats: Vec<u64> = Vec::new();
    let mut unwritten = false;
    let mut i: usize = 0;
    assert(values@.take(0) =~= Seq::empty());
    while i < values.len()
        invariant
            i <= values.len(),
            floats@ == float_bits(values@.take(i as int)),
            floats@.len() == count_floats(values@.take(i as int)),
            unwritten == any_uninitialized(values@.take(i as int)),
        decreases values.len() - i,
    {
        proof {
            assert(values@.take(i as int + 1).drop_last() =~= values@.take(i as int));
            assert(values@.take(i as int + 1).last() == values@[i as int]);
            if any_uninitialized(values@.take(i as int)) {
                let j = choose|j: int|
                    0 <= j < i && #[trigger] values@.take(i as int)[j] == Value::<P>::Uninitialized;
                assert(values@.take(i as int + 1)[j] == Value::<P>::Uninitialized);
            }
            if any_uninitialized(values@.take(i as int + 1)) && !any_uninitialized(
                values@.take(i as int),
            ) {
                let j = choose|j: int|
                    0 <= j < i + 1 && #[trigger] values@.take(i as int + 1)[j]
                        == Value::<P>::Uninitialized;
                if j < i {
                    assert(values@.take(i as int)[j] == Value::<P>::Uninitialized);
                }
            }
        }
        match &values[i] {
            Value::Float(bits) => {
                floats.push(*bits);
            },
            Value::Uninitialized => {
                assert(values@.take(i as int + 1)[i as int] == Value::<P>::Uninitialized);
                unwritten = true;
            },
            _ => {},
        }
        i = i + 1;
    }
    assert(values@.take(values@.len() as int) =~= values@);
    (floats, unwritten)
}

/// The bit pattern that was handed in for the `i`-th program argument, if one
/// was.
pub open spec fn float_at(floats: Seq<Option<u64>>, i: int) -> Option<u64> {
    if 0 <= i < floats.len() {
        floats[i]
    } else {
        None
    }
}

/// The value that the text of a program argument stands for, by the declared
/// type of the argument: `true` or `false` for a boolean, a decimal number
/// for an integer, one character or an escape for a character. For a
/// floating point number, `float` is the bit pattern of what the text stands
/// for, if it stands for a number. A pointer cannot be given as text.
pub open spec fn arg_value<P: BrilPointer>(ty: Type, text: String, float: Option<u64>) -> Result<
    Value<P>,
    InterpError,
> {
    match ty {
        Type::Bool => match parsed_bool(text@) {
            Some(b) => Ok(Value::Bool(b)),
            None => Err(InterpError::BadFuncArgType(Type::Bool, text)),
        },
        Type::Int => match parsed_int(text@) {
            Some(i) => Ok(Value::Int(i)),
            None => Err(InterpError::BadFuncArgType(Type::Int, text)),
        },
        Type::Float => match float {
            Some(bits) => Ok(Value::Float(bits)),
            None => Err(InterpError::BadFuncArgType(Type::Float, text)),
        },
        Type::Char => match escaped_char(text@) {
            Some(c) => Ok(Value::Char(c)),
            None => Err(InterpError::NotOneChar),
        },
        Type::Pointer(inner) => Err(InterpError::BadFuncArgType(Type::Pointer(inner), text)),
    }
}

/// The environment after the first `n` program arguments were parsed and
/// written to their slots, or the error of the first that does not parse.
pub open spec fn parsed_args<P: BrilPointer>(
    env: EnvModel<P>,
    args: Seq<Argument>,
    args_as_nums: Seq<VarIndex>,
    inputs: Seq<String>,
    floats: Seq<Option<u64>>,
    n: int,
) -> Result<EnvModel<P>, InterpError>
    decreases n,
{
    if n <= 0 {
        Ok(env)
    } else {
        match parsed_args(env, args, args_as_nums, inputs, floats, n - 1) {
            Err(e) => Err(e),
            Ok(before) => match arg_value::<P>(
                args[n - 1].arg_type,
                inputs[n - 1],
                float_at(floats, n - 1),
            ) {
                Err(e) => Err(e),
                Ok(v) => Ok(before.set(args_as_nums[n - 1], v)),
            },
        }
    }
}

/// The environment with the program arguments in the slots of `main`'s
/// arguments. Fails with `BadNumFuncArgs` if there are not as many texts as
/// arguments, and else with the error of the first text that does not parse
/// as its argument's type.
pub open spec fn parse_args_spec<P: BrilPointer>(
    env: EnvModel<P>,
    args: Seq<Argument>,
    args_as_nums: Seq<VarIndex>,
    inputs: Seq<String>,
    floats: Seq<Option<u64>>,
) -> Result<EnvModel<P>, InterpError> {
    if inputs.len() != args.len() {
        Err(InterpError::BadNumFuncArgs(args.len() as usize, inputs.len() as usize))
    } else {
        parsed_args(env, args, args_as_nums, inputs, floats, args.len() as int)
    }
}

/// The value that the text of a program argument stands for.
pub fn parse_arg<P: BrilPointer>(
    ty: &Type,
    text: &String,
    float: Option<u64>,
) -> (r: Result<Value<P>, InterpError>)
    ensures
        r == arg_value::<P>(*ty, *text, float),
{
    match ty {
        Type::Bool => match parse_bool(text.as_str()) {
            Some(b) => Ok(Value::Bool(b)),
            None => Err(InterpError::BadFuncArgType(Type::Bool, text.clone())),
        },
        Type::Int => match parse_int(text.as_str()) {
            Some(i) => Ok(Value::Int(i)),
            None => Err(InterpError::BadFuncArgType(Type::Int, text.clone())),
        },
        Type::Float => match float {
            Some(bits) => Ok(Value::Float(bits)),
            None => Err(InterpError::BadFuncArgType(Type::Float, text.clone())),
        },
        Type::Char => match escape_control_chars(text.as_str()) {
            Some(c) => Ok(Value::Char(c)),
            None => Err(InterpError::NotOneChar),
        },
        Type::Pointer(_) => Err(InterpError::BadFuncArgType(ty.copy(), text.clone())),
    }
}

/// Parses the texts `inputs` as the arguments `args` of `main` and writes
/// them to the slots `args_as_nums`. `float_inputs` holds, for each text, the
/// bit pattern of the floating point number it stands for, if it stands for
/// one.
#[verifier::loop_isolation(false)]
pub fn parse_args<P: BrilPointer>(
    env: Environment<P>,
    args: &Vec<Argument>,
    args_as_nums: &Vec<VarIndex>,
    inputs: &Vec<String>,
    float_inputs: &Vec<Option<u64>>,
) -> (r: Result<Environment<P>, InterpError>)
    requires
        env@.wf(),
        args@.len() == args_as_nums@.len(),
        all_below(args_as_nums@, env@.current_frame_size as nat),
    ensures
        match r {
            Ok(e) => parse_args_spec(env@, args@, args_as_nums@, inputs@, float_inputs@)
                == Ok::<EnvModel<P>, InterpError>(e@) && e@.wf() && e@.current_frame_size
                == env@.current_frame_size && e@.stack_pointers == env@.stack_pointers,
            Err(e) => parse_args_spec(env@, args@, args_as_nums@, inputs@, float_inputs@)
                == Err::<EnvModel<P>, InterpError>(e),
        },
{
    if inputs.len() != args.len() {
        return Err(InterpError::BadNumFuncArgs(args.len(), inputs.len()));
    }
    let mut env = env;
    let ghost start = env@;
    let mut i: usize = 0;
    while i < args.len()
        invariant
            i <= args.len(),
            inputs@.len() == args@.len(),
            args@.len() == args_as_nums@.len(),
            all_below(args_as_nums@, start.current_frame_size as nat),
            env@.wf(),
            env@.current_frame_size == start.current_frame_size,
            env@.stack_pointers == start.stack_pointers,
            parsed_args(start, args@, args_as_nums@, inputs@, float_inputs@, i as int) == Ok::<
                EnvModel<P>,
                InterpError,
            >(env@),
        decreases args.len() - i,
    {
        let float = if i < float_inputs.len() {
            float_inputs[i]
        } else {
            None
        };
        proof {
            assert(args_as_nums@[i as int] < start.current_frame_size);
        }
        match parse_arg(&args[i].arg_type, &inputs[i], float) {
            Err(e) => {
                proof {
                    assert(float == float_at(float_inputs@, i as int));
                    assert(parsed_args(
                        start,
                        args@,
                        args_as_nums@,
                        inputs@,
                        float_inputs@,
                        i as int + 1,
                    ) == Err::<EnvModel<P>, InterpError>(e));
                    lemma_parse_error_stays(
                        start,
                        args@,
                        args_as_nums@,
                        inputs@,
                        float_inputs@,
                        i as int + 1,
                    );
                }
                return Err(e);
            },
            Ok(v) => {
                env.set(args_as_nums[i], v);
            },
        }
        i = i + 1;
    }
    Ok(env)
}

/// Once an argument fails to parse, the error stays whatever follows.
pub proof fn lemma_parse_error_stays<P: BrilPointer>(
    env: EnvModel<P>,
    args: Seq<Argument>,
    args_as_nums: Seq<VarIndex>,
    inputs: Seq<String>,
    floats: Seq<Option<u64>>,
    n: int,
)
    requires
        0 <= n <= args.len(),
        parsed_args(env, args, args_as_nums, inputs, floats, n) is Err,
    ensures
        parsed_args(env, args, args_as_nums, inputs, floats, args.len() as int) == parsed_args(
            env,
            args,
            args_as_nums,
            inputs,
            floats,
            n,
        ),
    decreases args.len() - n,
{
    if n < args.len() {
        assert(parsed_args(env, args, args_as_nums, inputs, floats, n + 1) == parsed_args(
            env,
            args,
            args_as_nums,
            inputs,
            floats,
            n,
        ));
        lemma_parse_error_stays(env, args, args_as_nums, inputs, floats, n + 1);
    }
}

/// The machine about to run `main` on the program arguments, or why it cannot
/// start: `NoMainFunction` if the program has no `main`, else what parsing the
/// arguments fails with, at the position of `main`.
pub open spec fn main_start<P: BrilPointer>(
    p: ProgramView,
    inputs: Seq<String>,
    floats: Seq<Option<u64>>,
    heap: HeapModel<P>,
) -> Result<StateView<P>, PositionalError<InterpError>> {
    match p.index_of_main {
        None => Err(PositionalError { e: InterpError::NoMainFunction, pos: None }),
        Some(m) => {
            let f = p.funcs[m as int];
            match parse_args_spec(
                EnvModel::fresh(f.num_of_vars),
                f.args,
                f.args_as_nums,
                inputs,
                floats,
            ) {
                Err(e) => Err(PositionalError { e, pos: f.pos }),
                Ok(env) => Ok(StateView::start(p, m, env, heap)),
            }
        },
    }
}

/// The machine about to run `main` of `prog` on the program arguments
/// `input_args`, with `heap` as its heap.
pub fn start<'a, P: BrilPointer, H: BrilAllocator<P>>(
    prog: &'a BBProgram,
    heap: H,
    input_args: &Vec<String>,
    float_args: &Vec<Option<u64>>,
) -> (r: Result<State<'a, P, H>, PositionalError<InterpError>>)
    requires
        heap.inv(),
    ensures
        match r {
            Ok(s) => s.inv() && s.program() == prog@ && !s@.halted && main_start(
                prog@,
                input_args@,
                float_args@,
                heap.model(),
            ) == Ok::<StateView<P>, PositionalError<InterpError>>(s@),
            Err(e) => main_start(prog@, input_args@, float_args@, heap.model()) == Err::<
                StateView<P>,
                PositionalError<InterpError>,
            >(e),
        },
{
    let main = match prog.main_index() {
        None => {
            return Err(PositionalError { e: InterpError::NoMainFunction, pos: None });
        },
        Some(m) => m,
    };
    let main_func = prog.function(main);
    proof {
        assert(prog@.funcs[main as int] == main_func@);
        assert(main_func@.wf(prog@.funcs.len()));
    }
    let env = Environment::new(main_func.num_of_vars);
    match parse_args(env, &main_func.args, &main_func.args_as_nums, input_args, float_args) {
        Err(e) => Err(PositionalError { e, pos: main_func.pos }),
        Ok(env) => Ok(State::new(prog, main, env, heap)),
    }
}

/// How a run of `main` ended.
#[derive(Debug)]
pub enum RunStatus {
    /// The program ran to its end and freed all its memory.
    Finished,
    /// The program failed, or could not be started, or left memory allocated.
    Failed(PositionalError<InterpError>),
    /// The program stands before an instruction that needs floating point
    /// work.
    Float(FloatTask),
    /// The steps that were granted are used up.
    OutOfFuel,
}

/// What a run of `main` has to show.
#[derive(Debug)]
pub struct RunReport {
    /// Everything the program printed.
    pub out: String,
    /// The line with the number of instructions, if it was asked for and the
    /// program finished.
    pub profiling_out: String,
    /// How the run ended.
    pub status: RunStatus,
}

/// The line that reports `count` instructions.
pub open spec fn profile_line(count: usize) -> Seq<char> {
    "total_dyn_inst: "@ + decimal(count as int) + seq!['\n']
}

/// Where a leak is reported: at the position of `main`.
pub open spec fn leak_position(p: ProgramView) -> Option<Position> {
    match p.index_of_main {
        Some(m) => p.funcs[m as int].pos,
        None => None,
    }
}

/// Whether `report` is what a run that stopped in the state `last`, for the
/// reason `pause`, has to show.
///
/// What the program printed stands, however it ended. A program that ends
/// with memory still allocated has failed with `MemLeak`, at the position of
/// `main`. The line with the number of instructions is there only if
/// `profiling` is set and the program finished.
pub open spec fn stopped_report<P: BrilPointer>(
    report: RunReport,
    p: ProgramView,
    last: StateView<P>,
    pause: Pause<P>,
    profiling: bool,
) -> bool {
    &&& report.out@ == last.out
    &&& report.profiling_out@ == (if profiling && report.status is Finished {
        profile_line(last.instruction_count)
    } else {
        Seq::empty()
    })
    &&& report.status == match pause {
        Pause::Done(_) => if last.heap.is_empty() {
            RunStatus::Finished
        } else {
            RunStatus::Failed(PositionalError { e: InterpError::MemLeak, pos: leak_position(p) })
        },
        Pause::Fault(e) => RunStatus::Failed(e),
        Pause::Float(task) => RunStatus::Float(task),
        Pause::OutOfFuel => RunStatus::OutOfFuel,
    }
}

/// Whether `report` is what a run of `main` of `p` on the program arguments
/// shows when at most `fuel` steps are granted: a program that cannot be
/// started has printed nothing, and any other run shows what
/// [`stopped_report`] says of where it stopped.
pub open spec fn main_report(
    report: RunReport,
    p: ProgramView,
    inputs: Seq<String>,
    floats: Seq<Option<u64>>,
    profiling: bool,
    fuel: nat,
) -> bool {
    match main_start(p, inputs, floats, HeapModel::<Pointer>::empty()) {
        Err(e) => report.out@.len() == 0 && report.profiling_out@.len() == 0 && report.status
            == RunStatus::Failed(e),
        Ok(first) => stopped_report(
            report,
            p,
            first.run(p, fuel).0,
            first.run(p, fuel).1,
            profiling,
        ),
    }
}

/// What a run that has stopped for the reason `pause` has to show: what the
/// machine has printed and not yet handed over, the leak check and the line
/// of instructions counted for a program that has ended, and how the run
/// ended. The output is taken from the machine.
pub fn conclude<'a, P: BrilPointer, H: BrilAllocator<P>>(
    state: &mut State<'a, P, H>,
    pause: Pause<P>,
    profiling: bool,
) -> (report: RunReport)
    requires
        old(state).inv(),
    ensures
        stopped_report(report, old(state).program(), old(state)@, pause, profiling),
        final(state).inv(),
        final(state).program() == old(state).program(),
        final(state)@ == (StateView { out: Seq::empty(), ..old(state)@ }),
{
    let mut profiling_out = String::new();
    let status = match pause {
        Pause::Done(_) => {
            if state.heap_is_empty() {
                if profiling {
                    profiling_out.append("total_dyn_inst: ");
                    append_usize(&mut profiling_out, state.instruction_count());
                    append_char(&mut profiling_out, '\n');
                    assert(profiling_out@ =~= profile_line(state@.instruction_count));
                }
                RunStatus::Finished
            } else {
                let pos = match state.prog.main_index() {
                    Some(main) => state.prog.function(main).pos,
                    None => None,
                };
                RunStatus::Failed(PositionalError { e: InterpError::MemLeak, pos })
            }
        },
        Pause::Fault(e) => RunStatus::Failed(e),
        Pause::Float(task) => RunStatus::Float(task),
        Pause::OutOfFuel => RunStatus::OutOfFuel,
    };
    RunReport { out: state.take_output(), profiling_out, status }
}

/// A run is determined by the program, its arguments and the steps granted:
/// two reports of the same run show the same output, byte for byte, the same
/// line of instructions counted and the same status.
pub proof fn lemma_main_report_unique(
    first: RunReport,
    second: RunReport,
    p: ProgramView,
    inputs: Seq<String>,
    floats: Seq<Option<u64>>,
    profiling: bool,
    fuel: nat,
)
    requires
        main_report(first, p, inputs, floats, profiling, fuel),
        main_report(second, p, inputs, floats, profiling, fuel),
    ensures
        first.out@ == second.out@,
        first.profiling_out@ == second.profiling_out@,
        first.status == second.status,
{
}

/// Runs `main` of `prog` on the program arguments `input_args` for at most
/// `fuel` steps, on a fresh heap, and reports what it printed and how it
/// ended. `float_args` holds, for each argument text, the bit pattern of the
/// floating point number it stands for, if it stands for one.
pub fn execute_main(
    prog: &BBProgram,
    input_args: &Vec<String>,
    float_args: &Vec<Option<u64>>,
    profiling: bool,
    fuel: u64,
) -> (report: RunReport)
    ensures
        main_report(report, prog@, input_args@, float_args@, profiling, fuel as nat),
{
    let heap = BasicHeap::default();
    let mut state = match start(prog, heap, input_args, float_args) {
        Err(e) => {
            return RunReport {
                out: String::new(),
                profiling_out: String::new(),
                status: RunStatus::Failed(e),
            };
        },
        Ok(s) => s,
    };
    let pause = state.run(fuel);
    conclude(&mut state, pause, profiling)
}

} // verus!
