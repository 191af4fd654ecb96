use vstd::prelude::*;
use crate::error::InterpError;
use crate::ir::{
    all_below, all_known, flatten, lemma_flatten_wf, lemma_lookup_below, lookup_all,
    numbers_below, vars_after, FlatIR, FlatView, FuncIndex, LabelIndex, VarIndex,
};
use crate::names::{
    dense, lemma_with_name_dense, lemma_with_names_dense, no_names, with_name, with_names, NameMap,
};
use crate::positional::{Position, PositionalError};
use crate::program::{Argument, Code, Function, Instruction, Program, Type};

verus! {

/// A basic block: a straight run of flat instructions and where control goes
/// after it.
#[derive(Debug)]
pub struct BasicBlock {
    /// The label that starts the block, if it has one.
    pub label: Option<String>,
    /// The instructions.
    pub flat_instrs: Vec<FlatIR>,
    /// The source position of each instruction.
    pub positions: Vec<Option<Position>>,
    /// The blocks that may follow: none after a return, one after a jump or
    /// when control falls through, two after a branch (taken, not taken).
    pub exit: Vec<LabelIndex>,
}

/// The views of `instrs`.
pub open spec fn flat_views(instrs: Seq<FlatIR>) -> Seq<FlatView> {
    Seq::new(instrs.len(), |i: int| instrs[i]@)
}

/// The views of `blocks`.
pub open spec fn block_views(blocks: Seq<BasicBlock>) -> Seq<BlockView> {
    Seq::new(blocks.len(), |i: int| blocks[i]@)
}

/// What a [`BasicBlock`] holds.
pub struct BlockView {
    pub label: Option<String>,
    pub instrs: Seq<FlatView>,
    pub positions: Seq<Option<Position>>,
    pub exit: Seq<LabelIndex>,
}

impl View for BasicBlock {
    type V = BlockView;

    open spec fn view(&self) -> BlockView {
        BlockView {
            label: self.label,
            instrs: flat_views(self.flat_instrs@),
            positions: self.positions@,
            exit: self.exit@,
        }
    }
}

impl BlockView {
    /// The block without a label or an instruction.
    pub open spec fn empty() -> BlockView {
        BlockView {
            label: None,
            instrs: Seq::empty(),
            positions: Seq::empty(),
            exit: Seq::empty(),
        }
    }

    /// The empty block that starts with `label`.
    pub open spec fn labelled(label: String) -> BlockView {
        BlockView { label: Some(label), ..BlockView::empty() }
    }

    /// The block with one more instruction at its end.
    pub open spec fn with_instr(self, instr: FlatView, pos: Option<Position>) -> BlockView {
        BlockView {
            instrs: self.instrs.push(instr),
            positions: self.positions.push(pos),
            ..self
        }
    }

    /// Whether the block only names slots, blocks and functions that exist.
    pub open spec fn wf(self, vars: nat, blocks: nat, funcs: nat) -> bool {
        &&& self.positions.len() == self.instrs.len()
        &&& forall|i: int| 0 <= i < self.instrs.len() ==> (#[trigger] self.instrs[i]).wf(vars, blocks, funcs)
        &&& all_below(self.exit, blocks)
    }
}

/// A function as basic blocks, with its variables numbered.
#[derive(Debug)]
pub struct BBFunction {
    /// The function's name.
    pub name: String,
    /// The formal arguments.
    pub args: Vec<Argument>,
    /// The return type, if the function returns a value.
    pub return_type: Option<Type>,
    /// The basic blocks; execution starts at the first.
    pub blocks: Vec<BasicBlock>,
    /// How many variables the function has: the size of its frame.
    pub num_of_vars: usize,
    /// The slot of each formal argument.
    pub args_as_nums: Vec<VarIndex>,
    /// Where the function stands in the source.
    pub pos: Option<Position>,
}

/// What a [`BBFunction`] holds.
pub struct FunctionView {
    pub name: String,
    pub args: Seq<Argument>,
    pub return_type: Option<Type>,
    pub blocks: Seq<BlockView>,
    pub num_of_vars: usize,
    pub args_as_nums: Seq<VarIndex>,
    pub pos: Option<Position>,
}

impl View for BBFunction {
    type V = FunctionView;

    open spec fn view(&self) -> FunctionView {
        FunctionView {
            name: self.name,
            args: self.args@,
            return_type: self.return_type,
            blocks: block_views(self.blocks@),
            num_of_vars: self.num_of_vars,
            args_as_nums: self.args_as_nums@,
            pos: self.pos,
        }
    }
}

impl FunctionView {
    /// Whether the function only names slots, blocks and functions that exist.
    pub open spec fn wf(self, funcs: nat) -> bool {
        &&& self.args_as_nums.len() == self.args.len()
        &&& all_below(self.args_as_nums, self.num_of_vars as nat)
        &&& forall|b: int| 0 <= b < self.blocks.len() ==> (#[trigger] self.blocks[b]).wf(
            self.num_of_vars as nat, self.blocks.len(), funcs)
    }
}

/// A program as basic blocks: what the interpreter runs. Everything that such
/// a program names exists: see [`ProgramView::wf`].
#[derive(Debug)]
pub struct BBProgram {
    // Where `main` stands among the functions, if there is one
    index_of_main: Option<FuncIndex>,
    // The functions, in the order of the program
    func_index: Vec<BBFunction>,
}

/// What a [`BBProgram`] holds.
pub struct ProgramView {
    pub index_of_main: Option<FuncIndex>,
    pub funcs: Seq<FunctionView>,
}

impl View for BBProgram {
    type V = ProgramView;

    closed spec fn view(&self) -> ProgramView {
        ProgramView {
            index_of_main: self.index_of_main,
            funcs: Seq::new(self.func_index@.len(), |i: int| self.func_index@[i]@),
        }
    }
}

impl ProgramView {
    /// Whether the program only names slots, blocks and functions that exist.
    pub open spec fn wf(self) -> bool {
        &&& forall|f: int| 0 <= f < self.funcs.len() ==> (#[trigger] self.funcs[f]).wf(self.funcs.len())
        &&& self.index_of_main is Some ==> self.index_of_main.unwrap() < self.funcs.len()
    }
}

/// How many blocks come before the first label: one if the body starts with an
/// instruction, none if it starts with a label or is empty.
pub open spec fn entry_offset(codes: Seq<Code>) -> usize {
    if codes.len() > 0 && codes[0] is Instruction {
        1
    } else {
        0
    }
}

/// How many labels `codes` holds.
pub open spec fn count_labels(codes: Seq<Code>) -> nat
    decreases codes.len(),
{
    if codes.len() == 0 {
        0
    } else {
        count_labels(codes.drop_last()) + (if codes.last() is Label { 1nat } else { 0nat })
    }
}

/// The block number of each label: labels are numbered in the order in which
/// they stand, starting at `offset`. A label that stands twice is an error at
/// its second place.
pub open spec fn label_pass(codes: Seq<Code>, offset: usize) -> Result<
    Map<Seq<char>, usize>,
    PositionalError<InterpError>,
>
    decreases codes.len(),
{
    if codes.len() == 0 {
        Ok(no_names())
    } else {
        match label_pass(codes.drop_last(), offset) {
            Err(e) => Err(e),
            Ok(m) => match codes.last() {
                Code::Label { label, pos } => if m.contains_key(label@) {
                    Err(PositionalError { e: InterpError::DuplicateLabel(label), pos })
                } else {
                    Ok(m.insert(label@, (m.dom().len() + offset) as usize))
                },
                Code::Instruction(_) => Ok(m),
            },
        }
    }
}

/// Where the second pass over a function body stands.
pub struct BuildState {
    /// The blocks that are closed.
    pub blocks: Seq<BlockView>,
    /// The block that instructions are added to.
    pub curr: BlockView,
    /// The variable numbering so far.
    pub vars: Map<Seq<char>, usize>,
}

/// The state after one more label or instruction.
///
/// A label closes the current block and starts a new one; the current block is
/// kept if it has a label, or if it is the first block and not empty. A jump,
/// a branch or a return is added to the current block and closes it; what
/// follows up to the next label cannot be reached, and is left out. Any other
/// instruction is added to the current block.
pub open spec fn build_step(
    s: BuildState,
    code: Code,
    funcs: Map<Seq<char>, usize>,
    labels: Map<Seq<char>, usize>,
) -> Result<BuildState, PositionalError<InterpError>> {
    match code {
        Code::Label { label, .. } => {
            let keep = (s.curr.instrs.len() > 0 && s.blocks.len() == 0) || s.curr.label is Some;
            Ok(
                BuildState {
                    blocks: if keep {
                        s.blocks.push(s.curr)
                    } else {
                        s.blocks
                    },
                    curr: BlockView::labelled(label),
                    vars: s.vars,
                },
            )
        },
        Code::Instruction(i) => {
            let reachable = s.curr.label is Some || s.blocks.len() == 0;
            if i.is_terminator() && !reachable {
                Ok(BuildState { curr: BlockView::empty(), ..s })
            } else {
                let vars = vars_after(i, s.vars);
                match flatten(i, funcs, vars, labels) {
                    Err(e) => Err(PositionalError { e, pos: i.spec_pos() }),
                    Ok(f) => {
                        let grown = s.curr.with_instr(f, i.spec_pos());
                        if i.is_terminator() {
                            Ok(
                                BuildState {
                                    blocks: s.blocks.push(grown),
                                    curr: BlockView::empty(),
                                    vars,
                                },
                            )
                        } else {
                            Ok(BuildState { blocks: s.blocks, curr: grown, vars })
                        }
                    },
                }
            }
        },
    }
}

/// The state after all of `codes`, or the first error.
pub open spec fn build_all(
    s: BuildState,
    codes: Seq<Code>,
    funcs: Map<Seq<char>, usize>,
    labels: Map<Seq<char>, usize>,
) -> Result<BuildState, PositionalError<InterpError>>
    decreases codes.len(),
{
    if codes.len() == 0 {
        Ok(s)
    } else {
        match build_all(s, codes.drop_last(), funcs, labels) {
            Err(e) => Err(e),
            Ok(t) => build_step(t, codes.last(), funcs, labels),
        }
    }
}

/// The blocks once the body has ended: the current block is kept if it has a
/// label or an instruction.
pub open spec fn closed_blocks(s: BuildState) -> Seq<BlockView> {
    if s.curr.instrs.len() > 0 || s.curr.label is Some {
        s.blocks.push(s.curr)
    } else {
        s.blocks
    }
}

/// The successors of block `index` of `count`, by its last instruction: the
/// target of a jump, both targets of a branch, none after a return, and else
/// the next block if there is one.
pub open spec fn exit_of(instrs: Seq<FlatView>, index: int, count: int) -> Seq<LabelIndex> {
    if instrs.len() > 0 && instrs.last() is Jump {
        seq![instrs.last()->Jump_dest]
    } else if instrs.len() > 0 && instrs.last() is Branch {
        seq![instrs.last()->true_dest, instrs.last()->false_dest]
    } else if instrs.len() > 0 && (instrs.last() is ReturnValue || instrs.last() is ReturnVoid) {
        Seq::empty()
    } else if index + 1 < count {
        seq![(index + 1) as usize]
    } else {
        Seq::empty()
    }
}

/// `blocks` with the successors of each block filled in.
pub open spec fn with_exits(blocks: Seq<BlockView>) -> Seq<BlockView> {
    Seq::new(
        blocks.len(),
        |i: int| BlockView { exit: exit_of(blocks[i].instrs, i, blocks.len() as int), ..blocks[i] },
    )
}

/// The names of `args`, in order.
pub open spec fn arg_names(args: Seq<Argument>) -> Seq<String> {
    Seq::new(args.len(), |i: int| args[i].name)
}

/// The basic-block form of `f`, or why it has none. `funcs` numbers the
/// functions of the program.
///
/// Labels are numbered first. Then the arguments get the first slots, in
/// declaration order, and every other variable the next free slot where it is
/// first mentioned. The body is cut into blocks and every block gets its
/// successors.
pub open spec fn built_function(f: Function, funcs: Map<Seq<char>, usize>) -> Result<
    FunctionView,
    PositionalError<InterpError>,
> {
    match label_pass(f.instrs@, entry_offset(f.instrs@)) {
        Err(e) => Err(e),
        Ok(labels) => {
            let vars0 = with_names(no_names(), arg_names(f.args@));
            if !all_known(vars0, arg_names(f.args@)) {
                Err(PositionalError { e: InterpError::TooManyVariables, pos: f.pos })
            } else {
                match build_all(
                    BuildState { blocks: Seq::empty(), curr: BlockView::empty(), vars: vars0 },
                    f.instrs@,
                    funcs,
                    labels,
                ) {
                    Err(e) => Err(e),
                    Ok(s) => Ok(
                        FunctionView {
                            name: f.name,
                            args: f.args@,
                            return_type: f.return_type,
                            blocks: with_exits(closed_blocks(s)),
                            num_of_vars: s.vars.dom().len() as usize,
                            args_as_nums: lookup_all(vars0, arg_names(f.args@)),
                            pos: f.pos,
                        },
                    ),
                }
            }
        },
    }
}

/// Whether every block of `blocks` only names slots, blocks and functions
/// that exist.
pub open spec fn blocks_wf(blocks: Seq<BlockView>, vars: nat, count: nat, funcs: nat) -> bool {
    forall|b: int| 0 <= b < blocks.len() ==> (#[trigger] blocks[b]).wf(vars, count, funcs)
}

impl BasicBlock {
    /// A block without a label or an instruction.
    pub fn new() -> (r: Self)
        ensures
            r@ == BlockView::empty(),
    {
        let r = BasicBlock {
            label: None,
            flat_instrs: Vec::new(),
            positions: Vec::new(),
            exit: Vec::new(),
        };
        assert(r@.instrs =~= Seq::empty());
        r
    }
}

/// Numbers the labels of a function body in the order in which they stand,
/// starting at `offset`; fails with `DuplicateLabel` at a label that stands
/// twice.
fn number_labels(instrs: &Vec<Code>, offset: usize) -> (r: Result<
    NameMap,
    PositionalError<InterpError>,
>)
    requires
        offset == entry_offset(instrs@),
    ensures
        match r {
            Ok(m) => label_pass(instrs@, offset) is Ok && label_pass(instrs@, offset)->Ok_0 == m@
                && numbers_below(m@, (count_labels(instrs@) + offset) as nat),
            Err(e) => label_pass(instrs@, offset) is Err && label_pass(instrs@, offset)->Err_0
                == e,
        },
{
    let mut label_map = NameMap::new();
    let mut i: usize = 0;
    assert(instrs@.take(0) =~= Seq::empty());
    while i < instrs.len()
        invariant
            i <= instrs.len(),
            offset == entry_offset(instrs@),
            label_pass(instrs@.take(i as int), offset) is Ok,
            label_pass(instrs@.take(i as int), offset)->Ok_0 == label_map@,
            label_map@.dom().finite(),
            label_map@.dom().len() == count_labels(instrs@.take(i as int)),
            numbers_below(label_map@, (count_labels(instrs@.take(i as int)) + offset) as nat),
            i > 0 ==> count_labels(instrs@.take(i as int)) + offset <= i,
            i == 0 ==> count_labels(instrs@.take(i as int)) == 0,
        decreases instrs.len() - i,
    {
        proof {
            assert(instrs@.take(i as int + 1).drop_last() =~= instrs@.take(i as int));
            assert(instrs@.take(i as int + 1).last() == instrs@[i as int]);
        }
        match &instrs[i] {
            Code::Label { label, pos } => {
                if label_map.get(label).is_some() {
                    proof {
                        lemma_label_pass_error_stays(instrs@, i as int + 1, offset);
                    }
                    return Err(
                        PositionalError { e: InterpError::DuplicateLabel(label.clone()), pos: *pos },
                    );
                }
                let n = label_map.len();
                let ghost before = label_map@;
                label_map.insert(label.clone(), n + offset);
                assert(label_map@.dom() =~= before.dom().insert(label@));
            },
            Code::Instruction(_) => {},
        }
        i = i + 1;
    }
    assert(instrs@.take(instrs@.len() as int) =~= instrs@);
    Ok(label_map)
}

/// Once a prefix of a body has a label twice, so has the whole body, at the
/// same place.
proof fn lemma_label_pass_error_stays(codes: Seq<Code>, n: int, offset: usize)
    requires
        0 <= n <= codes.len(),
        label_pass(codes.take(n), offset) is Err,
    ensures
        label_pass(codes, offset) == label_pass(codes.take(n), offset),
    decreases codes.len() - n,
{
    if n < codes.len() {
        assert(codes.take(n + 1).drop_last() =~= codes.take(n));
        assert(label_pass(codes.take(n + 1), offset) == label_pass(codes.take(n), offset));
        lemma_label_pass_error_stays(codes, n + 1, offset);
    } else {
        assert(codes.take(n) =~= codes);
    }
}

/// Once a prefix of a body fails to build, so does the whole body, with the
/// same error.
proof fn lemma_build_error_stays(
    s: BuildState,
    codes: Seq<Code>,
    n: int,
    funcs: Map<Seq<char>, usize>,
    labels: Map<Seq<char>, usize>,
)
    requires
        0 <= n <= codes.len(),
        build_all(s, codes.take(n), funcs, labels) is Err,
    ensures
        build_all(s, codes, funcs, labels) == build_all(s, codes.take(n), funcs, labels),
    decreases codes.len() - n,
{
    if n < codes.len() {
        assert(codes.take(n + 1).drop_last() =~= codes.take(n));
        assert(build_all(s, codes.take(n + 1), funcs, labels) == build_all(
            s,
            codes.take(n),
            funcs,
            labels,
        ));
        lemma_build_error_stays(s, codes, n + 1, funcs, labels);
    } else {
        assert(codes.take(n) =~= codes);
    }
}

/// A copy of `args`.
fn copy_args(args: &Vec<Argument>) -> (r: Vec<Argument>)
    ensures
        r@ == args@,
{
    let mut out: Vec<Argument> = Vec::new();
    let mut i: usize = 0;
    while i < args.len()
        invariant
            i <= args.len(),
            out@.len() == i,
            forall|j: int| 0 <= j < i ==> out@[j] == args@[j],
        decreases args.len() - i,
    {
        out.push(Argument { name: args[i].name.clone(), arg_type: args[i].arg_type.copy() });
        i = i + 1;
    }
    assert(out@ =~= args@);
    out
}

/// The names of `args`, in order.
fn names_of_args(args: &Vec<Argument>) -> (r: Vec<String>)
    ensures
        r@ == arg_names(args@),
{
    let mut out: Vec<String> = Vec::new();
    let mut i: usize = 0;
    while i < args.len()
        invariant
            i <= args.len(),
            out@.len() == i,
            forall|j: int| 0 <= j < i ==> out@[j] == args@[j].name,
        decreases args.len() - i,
    {
        out.push(args[i].name.clone());
        i = i + 1;
    }
    assert(out@ =~= arg_names(args@));
    out
}

/// The successors of block `index` of `count` blocks, by its last instruction.
fn successors(instrs: &Vec<FlatIR>, index: usize, count: usize) -> (r: Vec<LabelIndex>)
    requires
        index < count,
    ensures
        r@ == exit_of(flat_views(instrs@), index as int, count as int),
{
    let mut exit: Vec<LabelIndex> = Vec::new();
    let n = instrs.len();
    proof {
        if n > 0 {
            assert(flat_views(instrs@).last() == instrs@[n - 1]@);
        }
    }
    if n > 0 {
        match &instrs[n - 1] {
            FlatIR::Jump { dest } => {
                exit.push(*dest);
                assert(exit@ =~= seq![*dest]);
                return exit;
            },
            FlatIR::Branch { true_dest, false_dest, .. } => {
                exit.push(*true_dest);
                exit.push(*false_dest);
                assert(exit@ =~= seq![*true_dest, *false_dest]);
                return exit;
            },
            FlatIR::ReturnValue { .. } => {
                return exit;
            },
            FlatIR::ReturnVoid => {
                return exit;
            },
            _ => {},
        }
    }
    if index + 1 < count {
        exit.push(index + 1);
        assert(exit@ =~= seq![(index + 1) as usize]);
    }
    exit
}

impl BBFunction {
    /// The basic-block form of `f`: see [`built_function`].
    pub fn new(f: &Function, func_map: &NameMap) -> (r: Result<Self, PositionalError<InterpError>>)
        ensures
            match r {
                Ok(func) => built_function(*f, func_map@) is Ok && built_function(
                    *f,
                    func_map@,
                )->Ok_0 == func@,
                Err(e) => built_function(*f, func_map@) is Err && built_function(
                    *f,
                    func_map@,
                )->Err_0 == e,
            },
    {
        match Self::find_basic_blocks(f, func_map) {
            Err(e) => Err(e),
            Ok(mut func) => {
                func.build_cfg();
                Ok(func)
            },
        }
    }

    /// Cuts the body of `func` into blocks and resolves every name in it. The
    /// blocks do not have their successors yet.
    #[verifier::loop_isolation(false)]
    fn find_basic_blocks(func: &Function, func_map: &NameMap) -> (r: Result<
        Self,
        PositionalError<InterpError>,
    >)
        ensures
            match r {
                Ok(bb) => built_function(*func, func_map@) is Ok && with_exits(bb@.blocks)
                    == built_function(*func, func_map@)->Ok_0.blocks && bb@ == (FunctionView {
                    blocks: bb@.blocks,
                    ..built_function(*func, func_map@)->Ok_0
                }),
                Err(e) => built_function(*func, func_map@) is Err && built_function(
                    *func,
                    func_map@,
                )->Err_0 == e,
            },
    {
        let instrs = &func.instrs;
        let pos = func.pos;
        let offset: usize = if instrs.len() > 0 {
            match &instrs[0] {
                Code::Label { .. } => 0,
                Code::Instruction(_) => 1,
            }
        } else {
            0
        };
        let label_map = match number_labels(instrs, offset) {
            Err(e) => {
                return Err(e);
            },
            Ok(m) => m,
        };
        let mut num_var_map = NameMap::new();
        let names = names_of_args(&func.args);
        let args_as_nums = match crate::ir::intern_all(&names, &mut num_var_map) {
            None => {
                return Err(PositionalError { e: InterpError::TooManyVariables, pos });
            },
            Some(nums) => nums,
        };
        let ghost vars0 = num_var_map@;
        let ghost start = BuildState {
            blocks: Seq::empty(),
            curr: BlockView::empty(),
            vars: vars0,
        };
        let mut blocks: Vec<BasicBlock> = Vec::new();
        let mut curr_block = BasicBlock::new();
        let mut i: usize = 0;
        assert(instrs@.take(0) =~= Seq::empty());
        assert(block_views(blocks@) =~= Seq::empty());
        while i < instrs.len()
            invariant
                i <= instrs.len(),
                dense(num_var_map@),
                build_all(start, instrs@.take(i as int), func_map@, label_map@) is Ok,
                build_all(start, instrs@.take(i as int), func_map@, label_map@)->Ok_0
                    == (BuildState {
                    blocks: block_views(blocks@),
                    curr: curr_block@,
                    vars: num_var_map@,
                }),
            decreases instrs.len() - i,
        {
            proof {
                assert(instrs@.take(i as int + 1).drop_last() =~= instrs@.take(i as int));
                assert(instrs@.take(i as int + 1).last() == instrs@[i as int]);
            }
            let ghost before = block_views(blocks@);
            let ghost curr_before = curr_block@;
            let ghost vars_before = num_var_map@;
            match &instrs[i] {
                Code::Label { label, .. } => {
                    if (curr_block.flat_instrs.len() > 0 && blocks.len() == 0)
                        || curr_block.label.is_some() {
                        blocks.push(curr_block);
                        assert(block_views(blocks@) =~= before.push(curr_before));
                    }
                    curr_block = BasicBlock::new();
                    curr_block.label = Some(label.clone());
                },
                Code::Instruction(instr) => {
                    let reachable = curr_block.label.is_some() || blocks.len() == 0;
                    let terminator = instr.ends_block();
                    if terminator && !reachable {
                        curr_block = BasicBlock::new();
                    } else {
                        match FlatIR::new(instr, func_map, &mut num_var_map, &label_map) {
                            Err(e) => {
                                proof {
                                    let t = BuildState {
                                        blocks: before,
                                        curr: curr_before,
                                        vars: vars_before,
                                    };
                                    assert(instrs@[i as int] == Code::Instruction(*instr));
                                    assert(build_step(
                                        t,
                                        instrs@[i as int],
                                        func_map@,
                                        label_map@,
                                    ) == Err::<BuildState, PositionalError<InterpError>>(e));
                                    lemma_build_error_stays(
                                        start,
                                        instrs@,
                                        i as int + 1,
                                        func_map@,
                                        label_map@,
                                    );
                                }
                                return Err(e);
                            },
                            Ok(flat) => {
                                let ghost flat_view = flat@;
                                curr_block.flat_instrs.push(flat);
                                curr_block.positions.push(instr.get_pos());
                                assert(curr_block@.instrs =~= curr_before.instrs.push(flat_view));
                                if terminator {
                                    let ghost grown = curr_block@;
                                    blocks.push(curr_block);
                                    assert(block_views(blocks@) =~= before.push(grown));
                                    curr_block = BasicBlock::new();
                                }
                            },
                        }
                    }
                },
            }
            i = i + 1;
        }
        assert(instrs@.take(instrs@.len() as int) =~= instrs@);
        let ghost before = block_views(blocks@);
        let ghost last = curr_block@;
        if curr_block.flat_instrs.len() > 0 || curr_block.label.is_some() {
            blocks.push(curr_block);
            assert(block_views(blocks@) =~= before.push(last));
        }
        let num_of_vars = num_var_map.len();
        let return_type = match &func.return_type {
            None => None,
            Some(t) => Some(t.copy()),
        };
        Ok(
            BBFunction {
                name: func.name.clone(),
                args: copy_args(&func.args),
                return_type,
                blocks,
                args_as_nums,
                num_of_vars,
                pos,
            },
        )
    }

    /// Gives every block its successors.
    fn build_cfg(&mut self)
        ensures
            final(self)@ == (FunctionView { blocks: with_exits(old(self)@.blocks), ..old(self)@ }),
    {
        let count = self.blocks.len();
        let mut i: usize = 0;
        while i < count
            invariant
                i <= count,
                count == self.blocks@.len(),
                count == old(self).blocks@.len(),
                self.name == old(self).name,
                self.args == old(self).args,
                self.return_type == old(self).return_type,
                self.num_of_vars == old(self).num_of_vars,
                self.args_as_nums == old(self).args_as_nums,
                self.pos == old(self).pos,
                forall|j: int| i <= j < count ==> self.blocks@[j] == old(self).blocks@[j],
                forall|j: int|
                    0 <= j < i ==> (#[trigger] self.blocks@[j])@ == with_exits(old(self)@.blocks)[j],
            decreases count - i,
        {
            let exit = successors(&self.blocks[i].flat_instrs, i, count);
            self.blocks[i].exit = exit;
            i = i + 1;
        }
        assert(self@.blocks =~= with_exits(old(self)@.blocks));
    }
}

/// A block stays well-formed when there are more slots and more blocks.
pub proof fn lemma_block_wf_more(
    b: BlockView,
    vars: nat,
    more_vars: nat,
    blocks: nat,
    more_blocks: nat,
    funcs: nat,
)
    requires
        b.wf(vars, blocks, funcs),
        vars <= more_vars,
        blocks <= more_blocks,
    ensures
        b.wf(more_vars, more_blocks, funcs),
{
    assert forall|i: int| 0 <= i < b.instrs.len() implies (#[trigger] b.instrs[i]).wf(
        more_vars,
        more_blocks,
        funcs,
    ) by {
        assert(b.instrs[i].wf(vars, blocks, funcs));
    }
}

/// Blocks stay well-formed when there are more slots and more blocks.
pub proof fn lemma_blocks_wf_more(
    bs: Seq<BlockView>,
    vars: nat,
    more_vars: nat,
    blocks: nat,
    more_blocks: nat,
    funcs: nat,
)
    requires
        blocks_wf(bs, vars, blocks, funcs),
        vars <= more_vars,
        blocks <= more_blocks,
    ensures
        blocks_wf(bs, more_vars, more_blocks, funcs),
{
    assert forall|b: int| 0 <= b < bs.len() implies (#[trigger] bs[b]).wf(
        more_vars,
        more_blocks,
        funcs,
    ) by {
        lemma_block_wf_more(bs[b], vars, more_vars, blocks, more_blocks, funcs);
    }
}

/// The labels of a body get the numbers from `offset` on, one each.
pub proof fn lemma_label_pass_bound(codes: Seq<Code>, offset: usize)
    requires
        label_pass(codes, offset) is Ok,
        count_labels(codes) + offset <= usize::MAX,
    ensures
        label_pass(codes, offset)->Ok_0.dom().finite(),
        label_pass(codes, offset)->Ok_0.dom().len() == count_labels(codes),
        numbers_below(label_pass(codes, offset)->Ok_0, (count_labels(codes) + offset) as nat),
    decreases codes.len(),
{
    if codes.len() > 0 {
        lemma_label_pass_bound(codes.drop_last(), offset);
        let m = label_pass(codes.drop_last(), offset)->Ok_0;
        match codes.last() {
            Code::Label { label, pos } => {
                assert(m.insert(label@, (m.dom().len() + offset) as usize).dom() =~= m.dom().insert(
                    label@,
                ));
            },
            Code::Instruction(_) => {},
        }
    }
}

/// A body has at most as many labels as entries, and fewer if it starts with
/// an instruction.
pub proof fn lemma_count_labels_bound(codes: Seq<Code>)
    ensures
        count_labels(codes) + entry_offset(codes) <= codes.len(),
    decreases codes.len(),
{
    if codes.len() > 1 {
        lemma_count_labels_bound(codes.drop_last());
        assert(codes.drop_last()[0] == codes[0]);
    } else if codes.len() == 1 {
        assert(codes.drop_last().len() == 0);
        assert(count_labels(codes.drop_last()) == 0);
    }
}

/// What holds of the second pass after `seen` entries of a body, `labels_seen`
/// of them labels: every instruction kept so far names slots, blocks and
/// functions that exist, and the blocks closed so far are one for each label
/// seen, after `offset` blocks for what stands before the first label.
pub open spec fn build_inv(
    s: BuildState,
    labels_seen: nat,
    seen: nat,
    offset: nat,
    num_blocks: nat,
    num_funcs: nat,
) -> bool {
    &&& dense(s.vars)
    &&& s.vars.dom().len() <= usize::MAX
    &&& blocks_wf(s.blocks, s.vars.dom().len(), num_blocks, num_funcs)
    &&& s.curr.wf(s.vars.dom().len(), num_blocks, num_funcs)
    &&& s.curr.exit.len() == 0
    &&& (s.curr.label is Some ==> labels_seen >= 1 && s.blocks.len() == labels_seen - 1 + offset)
    &&& (s.curr.label is None ==> (s.blocks.len() == labels_seen + offset || (s.blocks.len() == 0
        && labels_seen == 0 && offset == 1 && (seen == 0 || s.curr.instrs.len() > 0))))
    &&& (offset == 0 && seen > 0 ==> labels_seen >= 1)
    &&& (seen == 0 ==> s.curr.instrs.len() == 0 && s.blocks.len() == 0 && s.curr.label is None)
}

/// One entry of a body keeps [`build_inv`].
pub proof fn lemma_build_step_inv(
    s: BuildState,
    code: Code,
    funcs: Map<Seq<char>, usize>,
    labels: Map<Seq<char>, usize>,
    labels_seen: nat,
    seen: nat,
    offset: nat,
    num_blocks: nat,
    num_funcs: nat,
)
    requires
        build_inv(s, labels_seen, seen, offset, num_blocks, num_funcs),
        numbers_below(funcs, num_funcs),
        numbers_below(labels, num_blocks),
        build_step(s, code, funcs, labels) is Ok,
        seen == 0 ==> offset == (if code is Instruction { 1nat } else { 0nat }),
    ensures
        build_inv(
            build_step(s, code, funcs, labels)->Ok_0,
            labels_seen + (if code is Label { 1nat } else { 0nat }),
            seen + 1,
            offset,
            num_blocks,
            num_funcs,
        ),
{
    let t = build_step(s, code, funcs, labels)->Ok_0;
    let n0 = s.vars.dom().len();
    match code {
        Code::Label { label, .. } => {
            assert(t.curr.instrs.len() == 0);
        },
        Code::Instruction(i) => {
            let reachable = s.curr.label is Some || s.blocks.len() == 0;
            if i.is_terminator() && !reachable {
            } else {
                let vars = vars_after(i, s.vars);
                lemma_vars_after_dense(i, s.vars);
                let f = flatten(i, funcs, vars, labels)->Ok_0;
                lemma_flatten_wf(i, funcs, vars, labels, num_funcs, num_blocks);
                let n1 = vars.dom().len();
                lemma_blocks_wf_more(s.blocks, n0, n1, num_blocks, num_blocks, num_funcs);
                lemma_block_wf_more(s.curr, n0, n1, num_blocks, num_blocks, num_funcs);
                let grown = s.curr.with_instr(f, i.spec_pos());
                assert forall|j: int| 0 <= j < grown.instrs.len() implies (
                #[trigger] grown.instrs[j]).wf(n1, num_blocks, num_funcs) by {
                    if j < s.curr.instrs.len() {
                        assert(grown.instrs[j] == s.curr.instrs[j]);
                    }
                }
                assert(grown.wf(n1, num_blocks, num_funcs));
                if i.is_terminator() {
                    assert forall|b: int| 0 <= b < t.blocks.len() implies (#[trigger] t.blocks[b]).wf(
                        n1,
                        num_blocks,
                        num_funcs,
                    ) by {
                        if b < s.blocks.len() {
                            assert(t.blocks[b] == s.blocks[b]);
                        }
                    }
                }
            }
        },
    }
    if code is Label {
        let keep = (s.curr.instrs.len() > 0 && s.blocks.len() == 0) || s.curr.label is Some;
        if keep {
            assert forall|b: int| 0 <= b < t.blocks.len() implies (#[trigger] t.blocks[b]).wf(
                n0,
                num_blocks,
                num_funcs,
            ) by {
                if b < s.blocks.len() {
                    assert(t.blocks[b] == s.blocks[b]);
                }
            }
        }
    }
}

/// The variable numbering stays dense, and no smaller, over an instruction.
pub proof fn lemma_vars_after_dense(i: Instruction, vars: Map<Seq<char>, usize>)
    requires
        dense(vars),
        vars.dom().len() <= usize::MAX,
    ensures
        dense(vars_after(i, vars)),
        vars.dom().len() <= vars_after(i, vars).dom().len() <= usize::MAX,
        numbers_below(vars_after(i, vars), vars_after(i, vars).dom().len()),
        forall|n: Seq<char>| #[trigger]
            vars.contains_key(n) ==> vars_after(i, vars).contains_key(n) && vars_after(i, vars)[n]
                == vars[n],
{
    match i {
        Instruction::Constant { dest, .. } => {
            lemma_with_name_dense(vars, dest@);
        },
        Instruction::Value { dest, args, .. } => {
            lemma_with_name_dense(vars, dest@);
            lemma_with_names_dense(with_name(vars, dest@), args@);
            lemma_with_names_small(with_name(vars, dest@), args@);
        },
        Instruction::Effect { args, .. } => {
            lemma_with_names_dense(vars, args@);
            lemma_with_names_small(vars, args@);
        },
    }
}

/// A numbering never holds more names than can be counted.
pub proof fn lemma_with_names_small(m: Map<Seq<char>, usize>, names: Seq<String>)
    requires
        m.dom().finite(),
        m.dom().len() <= usize::MAX,
    ensures
        with_names(m, names).dom().finite(),
        with_names(m, names).dom().len() <= usize::MAX,
    decreases names.len(),
{
    if names.len() > 0 {
        lemma_with_names_small(m, names.drop_last());
        let m1 = with_names(m, names.drop_last());
        let name = names.last()@;
        if !m1.contains_key(name) && m1.dom().len() < usize::MAX {
            assert(m1.insert(name, m1.dom().len() as usize).dom() =~= m1.dom().insert(name));
        }
    }
}

/// [`build_inv`] holds after any number of entries of a body.
pub proof fn lemma_build_all_inv(
    start: BuildState,
    codes: Seq<Code>,
    n: int,
    funcs: Map<Seq<char>, usize>,
    labels: Map<Seq<char>, usize>,
    num_blocks: nat,
    num_funcs: nat,
)
    requires
        0 <= n <= codes.len(),
        start.blocks.len() == 0,
        start.curr == BlockView::empty(),
        dense(start.vars),
        start.vars.dom().len() <= usize::MAX,
        numbers_below(funcs, num_funcs),
        numbers_below(labels, num_blocks),
        build_all(start, codes.take(n), funcs, labels) is Ok,
    ensures
        build_inv(
            build_all(start, codes.take(n), funcs, labels)->Ok_0,
            count_labels(codes.take(n)),
            n as nat,
            entry_offset(codes) as nat,
            num_blocks,
            num_funcs,
        ),
    decreases n,
{
    if n > 0 {
        assert(codes.take(n).drop_last() =~= codes.take(n - 1));
        assert(codes.take(n).last() == codes[n - 1]);
        lemma_build_all_inv(start, codes, n - 1, funcs, labels, num_blocks, num_funcs);
        let s = build_all(start, codes.take(n - 1), funcs, labels)->Ok_0;
        lemma_build_step_inv(
            s,
            codes[n - 1],
            funcs,
            labels,
            count_labels(codes.take(n - 1)),
            (n - 1) as nat,
            entry_offset(codes) as nat,
            num_blocks,
            num_funcs,
        );
    } else {
        assert(codes.take(0) =~= Seq::empty());
    }
}

/// Everything that a built function names exists: its slots lie within its
/// frame, its jump and branch targets and successors are blocks of the
/// function, and the functions it calls are functions of the program.
pub proof fn lemma_built_function_wf(f: Function, funcs: Map<Seq<char>, usize>, num_funcs: nat)
    requires
        numbers_below(funcs, num_funcs),
        built_function(f, funcs) is Ok,
    ensures
        built_function(f, funcs)->Ok_0.wf(num_funcs),
{
    let codes = f.instrs@;
    let offset = entry_offset(codes);
    let labels = label_pass(codes, offset)->Ok_0;
    let names = arg_names(f.args@);
    let vars0 = with_names(no_names(), names);
    let start = BuildState { blocks: Seq::empty(), curr: BlockView::empty(), vars: vars0 };
    let s = build_all(start, codes, funcs, labels)->Ok_0;
    let built = built_function(f, funcs)->Ok_0;
    let num_labels = count_labels(codes);
    let bound = (num_labels + offset) as nat;
    vstd::std_specs::vec::axiom_spec_len(&f.instrs);
    lemma_count_labels_bound(codes);
    lemma_label_pass_bound(codes, offset);
    assert(no_names().dom() =~= Set::empty());
    lemma_with_names_dense(no_names(), names);
    lemma_with_names_small(no_names(), names);
    assert(codes.take(codes.len() as int) =~= codes);
    lemma_build_all_inv(start, codes, codes.len() as int, funcs, labels, bound, num_funcs);
    let closed = closed_blocks(s);
    let count = closed.len();
    let num_vars = s.vars.dom().len();
    assert(count >= bound);
    lemma_vars_grow(start, codes, codes.len() as int, funcs, labels);
    lemma_lookup_below(vars0, names, vars0.dom().len());
    assert forall|b: int| 0 <= b < built.blocks.len() implies (#[trigger] built.blocks[b]).wf(
        num_vars,
        count,
        num_funcs,
    ) by {
        let before = closed[b];
        if b < s.blocks.len() {
            assert(before == s.blocks[b]);
        }
        lemma_block_wf_more(before, num_vars, num_vars, bound, count, num_funcs);
        let after = built.blocks[b];
        assert(after.instrs == before.instrs);
        if before.instrs.len() > 0 {
            assert(before.instrs.last().wf(num_vars, count, num_funcs));
        }
    }
}

/// The variable numbering only grows over a body.
pub proof fn lemma_vars_grow(
    start: BuildState,
    codes: Seq<Code>,
    n: int,
    funcs: Map<Seq<char>, usize>,
    labels: Map<Seq<char>, usize>,
)
    requires
        0 <= n <= codes.len(),
        dense(start.vars),
        start.vars.dom().len() <= usize::MAX,
        build_all(start, codes.take(n), funcs, labels) is Ok,
    ensures
        dense(build_all(start, codes.take(n), funcs, labels)->Ok_0.vars),
        start.vars.dom().len() <= build_all(start, codes.take(n), funcs, labels)->Ok_0.vars.dom().len()
            <= usize::MAX,
    decreases n,
{
    if n > 0 {
        assert(codes.take(n).drop_last() =~= codes.take(n - 1));
        assert(codes.take(n).last() == codes[n - 1]);
        lemma_vars_grow(start, codes, n - 1, funcs, labels);
        let s = build_all(start, codes.take(n - 1), funcs, labels)->Ok_0;
        match codes[n - 1] {
            Code::Label { .. } => {},
            Code::Instruction(i) => {
                lemma_vars_after_dense(i, s.vars);
            },
        }
    } else {
        assert(codes.take(0) =~= Seq::empty());
    }
}

/// The number of labels among the first entries of a body grows with the
/// number of entries.
pub proof fn lemma_count_labels_grows(codes: Seq<Code>, m: int, n: int)
    requires
        0 <= m <= n <= codes.len(),
    ensures
        count_labels(codes.take(m)) <= count_labels(codes.take(n)),
        m < n && codes[m] is Label ==> count_labels(codes.take(m)) < count_labels(codes.take(n)),
    decreases n - m,
{
    if m < n {
        assert(codes.take(m + 1).drop_last() =~= codes.take(m));
        assert(codes.take(m + 1).last() == codes[m]);
        lemma_count_labels_grows(codes, m + 1, n);
    }
}

/// The block number of the label at place `c` of a body: as many as there
/// are labels before it, after the blocks before the first label.
pub open spec fn label_index(codes: Seq<Code>, c: int) -> int {
    count_labels(codes.take(c)) + entry_offset(codes)
}

/// The first pass gives each label the number of its block.
pub proof fn lemma_label_pass_numbers(codes: Seq<Code>, full: Seq<Code>, c: int)
    requires
        codes.len() <= full.len(),
        codes == full.take(codes.len() as int),
        label_pass(codes, entry_offset(full)) is Ok,
        count_labels(full) + entry_offset(full) <= usize::MAX,
        0 <= c < codes.len(),
        codes[c] is Label,
    ensures
        label_pass(codes, entry_offset(full))->Ok_0.contains_key(codes[c]->label@),
        label_pass(codes, entry_offset(full))->Ok_0[codes[c]->label@] == label_index(full, c),
    decreases codes.len(),
{
    let offset = entry_offset(full);
    let n = codes.len() as int;
    let rest = codes.drop_last();
    assert(rest =~= full.take(n - 1));
    lemma_count_labels_grows(full, n - 1, full.len() as int);
    assert(full.take(full.len() as int) =~= full);
    lemma_label_pass_bound(rest, offset);
    let before = label_pass(rest, offset)->Ok_0;
    if c == n - 1 {
        assert(codes.take(c) =~= rest);
        assert(full.take(c) =~= rest);
    } else {
        lemma_label_pass_numbers(rest, full, c);
        assert(rest[c] == codes[c]);
    }
}

/// What holds of the labels in the second pass after `seen` entries of a
/// body: a label whose block is closed is the label of the block with its
/// number, and a label whose block is still open is the label of that block.
pub open spec fn labels_inv(s: BuildState, codes: Seq<Code>, seen: int) -> bool {
    forall|c: int|
        #![trigger codes[c]]
        0 <= c < seen && codes[c] is Label ==> {
            &&& label_index(codes, c) <= s.blocks.len()
            &&& label_index(codes, c) < s.blocks.len() ==> s.blocks[label_index(codes, c)].label
                == Some(codes[c]->label)
            &&& label_index(codes, c) == s.blocks.len() ==> s.curr.label == Some(codes[c]->label)
        }
}

/// [`labels_inv`] holds after any number of entries of a body.
pub proof fn lemma_build_all_labels(
    start: BuildState,
    codes: Seq<Code>,
    n: int,
    funcs: Map<Seq<char>, usize>,
    labels: Map<Seq<char>, usize>,
    num_blocks: nat,
    num_funcs: nat,
)
    requires
        0 <= n <= codes.len(),
        start.blocks.len() == 0,
        start.curr == BlockView::empty(),
        dense(start.vars),
        start.vars.dom().len() <= usize::MAX,
        numbers_below(funcs, num_funcs),
        numbers_below(labels, num_blocks),
        build_all(start, codes.take(n), funcs, labels) is Ok,
    ensures
        labels_inv(build_all(start, codes.take(n), funcs, labels)->Ok_0, codes, n),
    decreases n,
{
    if n > 0 {
        assert(codes.take(n).drop_last() =~= codes.take(n - 1));
        assert(codes.take(n).last() == codes[n - 1]);
        lemma_build_all_labels(start, codes, n - 1, funcs, labels, num_blocks, num_funcs);
        lemma_build_all_inv(start, codes, n - 1, funcs, labels, num_blocks, num_funcs);
        lemma_build_all_inv(start, codes, n, funcs, labels, num_blocks, num_funcs);
        let s = build_all(start, codes.take(n - 1), funcs, labels)->Ok_0;
        let t = build_all(start, codes.take(n), funcs, labels)->Ok_0;
        let k = count_labels(codes.take(n - 1));
        let offset = entry_offset(codes);
        assert forall|c: int| #![trigger codes[c]] 0 <= c < n && codes[c] is Label implies {
            &&& label_index(codes, c) <= t.blocks.len()
            &&& label_index(codes, c) < t.blocks.len() ==> t.blocks[label_index(codes, c)].label
                == Some(codes[c]->label)
            &&& label_index(codes, c) == t.blocks.len() ==> t.curr.label == Some(codes[c]->label)
        } by {
            let j = label_index(codes, c);
            if c < n - 1 {
                lemma_count_labels_grows(codes, c, n - 1);
                assert(j < k + offset);
                if j < s.blocks.len() {
                    assert(t.blocks[j] == s.blocks[j]);
                }
            }
        }
    }
}

/// Every label leads to its block: the number that a label has in jumps,
/// branches and `phi`s is the number of the block that starts with it.
pub proof fn lemma_labels_name_their_blocks(f: Function, funcs: Map<Seq<char>, usize>, c: int)
    requires
        built_function(f, funcs) is Ok,
        0 <= c < f.instrs@.len(),
        f.instrs@[c] is Label,
    ensures
        ({
            let labels = label_pass(f.instrs@, entry_offset(f.instrs@))->Ok_0;
            let blocks = built_function(f, funcs)->Ok_0.blocks;
            let name = f.instrs@[c]->label;
            &&& labels.contains_key(name@)
            &&& labels[name@] < blocks.len()
            &&& blocks[labels[name@] as int].label == Some(name)
        }),
{
    let codes = f.instrs@;
    let offset = entry_offset(codes);
    let labels = label_pass(codes, offset)->Ok_0;
    let names = arg_names(f.args@);
    let vars0 = with_names(no_names(), names);
    let start = BuildState { blocks: Seq::empty(), curr: BlockView::empty(), vars: vars0 };
    let s = build_all(start, codes, funcs, labels)->Ok_0;
    let bound = (count_labels(codes) + offset) as nat;
    vstd::std_specs::vec::axiom_spec_len(&f.instrs);
    lemma_count_labels_bound(codes);
    lemma_label_pass_bound(codes, offset);
    assert(codes.take(codes.len() as int) =~= codes);
    lemma_label_pass_numbers(codes, codes, c);
    assert(no_names().dom() =~= Set::empty());
    lemma_with_names_dense(no_names(), names);
    lemma_with_names_small(no_names(), names);
    lemma_build_all_labels_any(start, codes, funcs, labels, bound);
    assert(codes[c] is Label);
    let j = label_index(codes, c);
    let closed = closed_blocks(s);
    if j < s.blocks.len() {
        assert(closed[j] == s.blocks[j]);
    }
}

/// [`labels_inv`] holds after the whole body, whatever numbers the functions
/// have.
proof fn lemma_build_all_labels_any(
    start: BuildState,
    codes: Seq<Code>,
    funcs: Map<Seq<char>, usize>,
    labels: Map<Seq<char>, usize>,
    num_blocks: nat,
)
    requires
        start.blocks.len() == 0,
        start.curr == BlockView::empty(),
        dense(start.vars),
        start.vars.dom().len() <= usize::MAX,
        numbers_below(labels, num_blocks),
        build_all(start, codes, funcs, labels) is Ok,
    ensures
        labels_inv(build_all(start, codes, funcs, labels)->Ok_0, codes, codes.len() as int),
{
    assert(codes.take(codes.len() as int) =~= codes);
    assert(numbers_below(funcs, usize::MAX as nat + 1));
    lemma_build_all_labels(
        start,
        codes,
        codes.len() as int,
        funcs,
        labels,
        num_blocks,
        usize::MAX as nat + 1,
    );
}

/// Whether a jump, branch or return stands nowhere in `block` but at its end.
pub open spec fn ends_at_terminator(block: BlockView) -> bool {
    forall|j: int| 0 <= j < block.instrs.len() - 1 ==> !(#[trigger] block.instrs[j]).is_terminator()
}

/// What holds of the shape of the blocks in the second pass: the block that
/// is open holds no jump, branch or return, and a block that is closed holds
/// one at its end at most.
pub open spec fn shape_inv(s: BuildState) -> bool {
    &&& forall|j: int| 0 <= j < s.curr.instrs.len() ==> !(#[trigger] s.curr.instrs[j]).is_terminator()
    &&& forall|b: int| 0 <= b < s.blocks.len() ==> ends_at_terminator(#[trigger] s.blocks[b])
}

/// The flat form of an instruction ends a block exactly if the instruction
/// does.
pub proof fn lemma_flatten_keeps_terminators(
    i: Instruction,
    funcs: Map<Seq<char>, usize>,
    vars: Map<Seq<char>, usize>,
    labels: Map<Seq<char>, usize>,
)
    requires
        flatten(i, funcs, vars, labels) is Ok,
    ensures
        flatten(i, funcs, vars, labels)->Ok_0.is_terminator() == i.is_terminator(),
{
}

/// [`shape_inv`] holds after any number of entries of a body.
pub proof fn lemma_build_all_shape(
    start: BuildState,
    codes: Seq<Code>,
    n: int,
    funcs: Map<Seq<char>, usize>,
    labels: Map<Seq<char>, usize>,
)
    requires
        0 <= n <= codes.len(),
        start.blocks.len() == 0,
        start.curr == BlockView::empty(),
        build_all(start, codes.take(n), funcs, labels) is Ok,
    ensures
        shape_inv(build_all(start, codes.take(n), funcs, labels)->Ok_0),
    decreases n,
{
    if n > 0 {
        assert(codes.take(n).drop_last() =~= codes.take(n - 1));
        assert(codes.take(n).last() == codes[n - 1]);
        lemma_build_all_shape(start, codes, n - 1, funcs, labels);
        let s = build_all(start, codes.take(n - 1), funcs, labels)->Ok_0;
        let t = build_all(start, codes.take(n), funcs, labels)->Ok_0;
        match codes[n - 1] {
            Code::Label { .. } => {
                assert forall|b: int| 0 <= b < t.blocks.len() implies ends_at_terminator(
                    #[trigger] t.blocks[b],
                ) by {
                    if b < s.blocks.len() {
                        assert(t.blocks[b] == s.blocks[b]);
                    } else {
                        assert(t.blocks[b] == s.curr);
                    }
                }
            },
            Code::Instruction(i) => {
                let reachable = s.curr.label is Some || s.blocks.len() == 0;
                if !(i.is_terminator() && !reachable) {
                    let vars = vars_after(i, s.vars);
                    lemma_flatten_keeps_terminators(i, funcs, vars, labels);
                    let f = flatten(i, funcs, vars, labels)->Ok_0;
                    let grown = s.curr.with_instr(f, i.spec_pos());
                    assert forall|j: int| 0 <= j < grown.instrs.len() - 1 implies !(
                    #[trigger] grown.instrs[j]).is_terminator() by {
                        assert(grown.instrs[j] == s.curr.instrs[j]);
                    }
                    if i.is_terminator() {
                        assert forall|b: int| 0 <= b < t.blocks.len() implies ends_at_terminator(
                            #[trigger] t.blocks[b],
                        ) by {
                            if b < s.blocks.len() {
                                assert(t.blocks[b] == s.blocks[b]);
                            } else {
                                assert(t.blocks[b] == grown);
                            }
                        }
                    } else {
                        assert forall|j: int| 0 <= j < t.curr.instrs.len() implies !(
                        #[trigger] t.curr.instrs[j]).is_terminator() by {
                            if j < s.curr.instrs.len() {
                                assert(t.curr.instrs[j] == s.curr.instrs[j]);
                            }
                        }
                    }
                }
            },
        }
    } else {
        assert(codes.take(0) =~= Seq::empty());
    }
}

/// Every block of a built function is a basic block: a jump, a branch or a
/// return stands at the end of its block and nowhere else, so control
/// enters a block at its first instruction only and leaves it after its
/// last.
pub proof fn lemma_blocks_end_at_terminators(f: Function, funcs: Map<Seq<char>, usize>, b: int)
    requires
        built_function(f, funcs) is Ok,
        0 <= b < built_function(f, funcs)->Ok_0.blocks.len(),
    ensures
        ends_at_terminator(built_function(f, funcs)->Ok_0.blocks[b]),
{
    let codes = f.instrs@;
    let labels = label_pass(codes, entry_offset(codes))->Ok_0;
    let vars0 = with_names(no_names(), arg_names(f.args@));
    let start = BuildState { blocks: Seq::empty(), curr: BlockView::empty(), vars: vars0 };
    let s = build_all(start, codes, funcs, labels)->Ok_0;
    assert(codes.take(codes.len() as int) =~= codes);
    lemma_build_all_shape(start, codes, codes.len() as int, funcs, labels);
    let closed = closed_blocks(s);
    if b < s.blocks.len() {
        assert(closed[b] == s.blocks[b]);
    } else {
        assert(closed[b] == s.curr);
    }
    let built = built_function(f, funcs)->Ok_0.blocks[b];
    assert(built.instrs == closed[b].instrs);
    assert forall|j: int| 0 <= j < built.instrs.len() - 1 implies !(
    #[trigger] built.instrs[j]).is_terminator() by {
        assert(closed[b].instrs[j] == built.instrs[j]);
    }
}

/// The slot of each variable of `f`: the numbering that the second pass ends
/// with.
pub open spec fn variable_slots(
    f: Function,
    funcs: Map<Seq<char>, usize>,
) -> Map<Seq<char>, usize> {
    let labels = label_pass(f.instrs@, entry_offset(f.instrs@))->Ok_0;
    let vars0 = with_names(no_names(), arg_names(f.args@));
    build_all(
        BuildState { blocks: Seq::empty(), curr: BlockView::empty(), vars: vars0 },
        f.instrs@,
        funcs,
        labels,
    )->Ok_0.vars
}

/// The variables of a function and the slots of its frame correspond one to
/// one: no two variables share a slot, the slot of every variable lies
/// within the frame, the frame has exactly as many slots as the function has
/// variables, and each argument has the slot that the function lists for it.
pub proof fn lemma_slots_are_a_bijection(f: Function, funcs: Map<Seq<char>, usize>)
    requires
        built_function(f, funcs) is Ok,
    ensures
        dense(variable_slots(f, funcs)),
        built_function(f, funcs)->Ok_0.num_of_vars == variable_slots(f, funcs).dom().len(),
        forall|i: int|
            0 <= i < f.args@.len() ==> variable_slots(f, funcs).contains_key(
                #[trigger] f.args@[i].name@,
            ) && variable_slots(f, funcs)[f.args@[i].name@] == built_function(
                f,
                funcs,
            )->Ok_0.args_as_nums[i],
{
    let codes = f.instrs@;
    let labels = label_pass(codes, entry_offset(codes))->Ok_0;
    let names = arg_names(f.args@);
    let vars0 = with_names(no_names(), names);
    let start = BuildState { blocks: Seq::empty(), curr: BlockView::empty(), vars: vars0 };
    assert(no_names().dom() =~= Set::empty());
    lemma_with_names_dense(no_names(), names);
    lemma_with_names_small(no_names(), names);
    assert(codes.take(codes.len() as int) =~= codes);
    lemma_vars_grow(start, codes, codes.len() as int, funcs, labels);
    lemma_vars_kept(start, codes, codes.len() as int, funcs, labels);
    assert forall|i: int| 0 <= i < f.args@.len() implies variable_slots(f, funcs).contains_key(
        #[trigger] f.args@[i].name@,
    ) && variable_slots(f, funcs)[f.args@[i].name@] == built_function(
        f,
        funcs,
    )->Ok_0.args_as_nums[i] by {
        assert(names[i] == f.args@[i].name);
        assert(vars0.contains_key(names[i]@));
    }
}

/// A variable keeps its slot over a body.
pub proof fn lemma_vars_kept(
    start: BuildState,
    codes: Seq<Code>,
    n: int,
    funcs: Map<Seq<char>, usize>,
    labels: Map<Seq<char>, usize>,
)
    requires
        0 <= n <= codes.len(),
        dense(start.vars),
        start.vars.dom().len() <= usize::MAX,
        build_all(start, codes.take(n), funcs, labels) is Ok,
    ensures
        forall|name: Seq<char>| #[trigger]
            start.vars.contains_key(name) ==> build_all(
                start,
                codes.take(n),
                funcs,
                labels,
            )->Ok_0.vars.contains_key(name) && build_all(
                start,
                codes.take(n),
                funcs,
                labels,
            )->Ok_0.vars[name] == start.vars[name],
    decreases n,
{
    if n > 0 {
        assert(codes.take(n).drop_last() =~= codes.take(n - 1));
        assert(codes.take(n).last() == codes[n - 1]);
        lemma_vars_kept(start, codes, n - 1, funcs, labels);
        lemma_vars_grow(start, codes, n - 1, funcs, labels);
        let s = build_all(start, codes.take(n - 1), funcs, labels)->Ok_0;
        match codes[n - 1] {
            Code::Label { .. } => {},
            Code::Instruction(i) => {
                lemma_vars_after_dense(i, s.vars);
            },
        }
    } else {
        assert(codes.take(0) =~= Seq::empty());
    }
}

/// The number of each function name: its place in the program. Of two
/// functions with one name, the later one has the name.
pub open spec fn func_numbering(fs: Seq<Function>) -> Map<Seq<char>, usize>
    decreases fs.len(),
{
    if fs.len() == 0 {
        no_names()
    } else {
        func_numbering(fs.drop_last()).insert(fs.last().name@, (fs.len() - 1) as usize)
    }
}

/// The error of the first of `fs` that has no basic-block form.
pub open spec fn first_failure(fs: Seq<Function>, funcs: Map<Seq<char>, usize>) -> Option<
    PositionalError<InterpError>,
>
    decreases fs.len(),
{
    if fs.len() == 0 {
        None
    } else if built_function(fs[0], funcs) is Err {
        Some(built_function(fs[0], funcs)->Err_0)
    } else {
        first_failure(fs.drop_first(), funcs)
    }
}

/// The name of the function where execution starts.
pub open spec fn main_name() -> Seq<char> {
    "main"@
}

/// The basic-block form of `p`, or why it has none: the error of the first
/// function that cannot be built, else `DuplicateFunction` if two functions
/// share a name.
pub open spec fn built_program(p: Program) -> Result<ProgramView, PositionalError<InterpError>> {
    let funcs = func_numbering(p.functions@);
    if first_failure(p.functions@, funcs) is Some {
        Err(first_failure(p.functions@, funcs)->Some_0)
    } else if funcs.dom().len() != p.functions@.len() {
        Err(PositionalError { e: InterpError::DuplicateFunction, pos: None })
    } else {
        Ok(
            ProgramView {
                index_of_main: if funcs.contains_key(main_name()) {
                    Some(funcs[main_name()])
                } else {
                    None
                },
                funcs: Seq::new(
                    p.functions@.len(),
                    |i: int| built_function(p.functions@[i], funcs)->Ok_0,
                ),
            },
        )
    }
}

/// A function's number is its place among the functions.
pub proof fn lemma_func_numbering_bound(fs: Seq<Function>)
    ensures
        numbers_below(func_numbering(fs), fs.len()),
    decreases fs.len(),
{
    if fs.len() > 0 {
        lemma_func_numbering_bound(fs.drop_last());
    }
}

/// Where no function fails to build, each one builds.
pub proof fn lemma_no_failure(fs: Seq<Function>, funcs: Map<Seq<char>, usize>)
    requires
        first_failure(fs, funcs) is None,
    ensures
        forall|i: int| 0 <= i < fs.len() ==> (#[trigger] built_function(fs[i], funcs)) is Ok,
    decreases fs.len(),
{
    if fs.len() > 0 {
        lemma_no_failure(fs.drop_first(), funcs);
        assert forall|i: int| 0 <= i < fs.len() implies (#[trigger] built_function(
            fs[i],
            funcs,
        )) is Ok by {
            if i > 0 {
                assert(fs[i] == fs.drop_first()[i - 1]);
            }
        }
    }
}

/// Everything that a built program names exists: in every function the slots
/// lie within the frame and the targets are blocks of the function, every
/// function called is a function of the program, and so is `main` if the
/// program has one.
pub proof fn lemma_built_program_wf(p: Program)
    requires
        built_program(p) is Ok,
    ensures
        built_program(p)->Ok_0.wf(),
{
    let fs = p.functions@;
    let funcs = func_numbering(fs);
    let built = built_program(p)->Ok_0;
    lemma_func_numbering_bound(fs);
    lemma_no_failure(fs, funcs);
    assert forall|f: int| 0 <= f < built.funcs.len() implies (#[trigger] built.funcs[f]).wf(
        built.funcs.len(),
    ) by {
        assert(built_function(fs[f], funcs) is Ok);
        lemma_built_function_wf(fs[f], funcs, fs.len());
    }
}

/// Whether `built` holds the basic-block forms of the first of `fs`.
pub open spec fn built_prefix(
    built: Seq<BBFunction>,
    fs: Seq<Function>,
    funcs: Map<Seq<char>, usize>,
) -> bool {
    &&& built.len() <= fs.len()
    &&& forall|j: int|
        0 <= j < built.len() ==> built_function(fs[j], funcs) == Ok::<
            FunctionView,
            PositionalError<InterpError>,
        >((#[trigger] built[j])@)
}

impl BBProgram {
    /// The basic-block form of `prog`: see [`built_program`].
    ///
    /// Fails if a function names a function or a label that does not exist,
    /// has a label twice or an operation with the wrong number of operands,
    /// or if two functions share a name.
    #[verifier::loop_isolation(false)]
    pub fn new(prog: Program) -> (r: Result<Self, PositionalError<InterpError>>)
        ensures
            match r {
                Ok(bb) => built_program(prog) is Ok && built_program(prog)->Ok_0 == bb@,
                Err(e) => built_program(prog) is Err && built_program(prog)->Err_0 == e,
            },
            r is Ok ==> r->Ok_0@.wf(),
    {
        let Program { imports: _, functions } = prog;
        let num_funcs = functions.len();
        let mut func_map = NameMap::new();
        let mut k: usize = 0;
        assert(functions@.take(0) =~= Seq::empty());
        while k < num_funcs
            invariant
                k <= num_funcs,
                num_funcs == functions@.len(),
                func_map@ == func_numbering(functions@.take(k as int)),
            decreases num_funcs - k,
        {
            proof {
                assert(functions@.take(k as int + 1).drop_last() =~= functions@.take(k as int));
            }
            func_map.insert(functions[k].name.clone(), k);
            k = k + 1;
        }
        assert(functions@.take(num_funcs as int) =~= functions@);
        let ghost fs = functions@;
        let ghost funcs = func_map@;
        let mut func_index: Vec<BBFunction> = Vec::new();
        let mut i: usize = 0;
        assert(fs.skip(0) =~= fs);
        while i < num_funcs
            invariant
                i <= num_funcs,
                func_index@.len() == i,
                first_failure(fs, funcs) == first_failure(fs.skip(i as int), funcs),
                built_prefix(func_index@, fs, funcs),
            decreases num_funcs - i,
        {
            proof {
                assert(fs.skip(i as int).drop_first() =~= fs.skip(i as int + 1));
                assert(fs.skip(i as int)[0] == fs[i as int]);
            }
            let func = match BBFunction::new(&functions[i], &func_map) {
                Err(e) => {
                    return Err(e);
                },
                Ok(func) => func,
            };
            let ghost built = func_index@;
            func_index.push(func);
            assert forall|j: int| 0 <= j < func_index@.len() implies built_function(fs[j], funcs)
                == Ok::<FunctionView, PositionalError<InterpError>>(
                (#[trigger] func_index@[j])@,
            ) by {
                if j < i {
                    assert(func_index@[j] == built[j]);
                }
            }
            i = i + 1;
        }
        let main = String::from_str("main");
        if func_map.len() == num_funcs {
            proof {
                lemma_built_program_wf(prog);
                let view = ProgramView {
                    index_of_main: if funcs.contains_key(main_name()) {
                        Some(funcs[main_name()])
                    } else {
                        None
                    },
                    funcs: Seq::new(func_index@.len(), |i: int| func_index@[i]@),
                };
                assert(view.funcs =~= built_program(prog)->Ok_0.funcs);
            }
            Ok(BBProgram { index_of_main: func_map.get(&main), func_index })
        } else {
            Err(PositionalError { e: InterpError::DuplicateFunction, pos: None })
        }
    }

    /// Everything that the program names exists.
    #[verifier::type_invariant]
    pub closed spec fn inv(&self) -> bool {
        self@.wf()
    }

    /// The function at position `func_name`, if there is one.
    pub fn get(&self, func_name: FuncIndex) -> (r: Option<&BBFunction>)
        ensures
            self@.wf(),
            func_name < self@.funcs.len() ==> r is Some && r->Some_0@ == self@.funcs[func_name as int],
            func_name >= self@.funcs.len() ==> r is None,
    {
        proof {
            use_type_invariant(self);
        }
        if func_name < self.func_index.len() {
            Some(&self.func_index[func_name])
        } else {
            None
        }
    }

    /// The function at position `index`.
    pub fn function(&self, index: FuncIndex) -> (r: &BBFunction)
        requires
            index < self@.funcs.len(),
        ensures
            self@.wf(),
            r@ == self@.funcs[index as int],
            r@.wf(self@.funcs.len()),
    {
        proof {
            use_type_invariant(self);
        }
        &self.func_index[index]
    }

    /// How many functions the program has.
    pub fn num_funcs(&self) -> (n: usize)
        ensures
            self@.wf(),
            n == self@.funcs.len(),
    {
        proof {
            use_type_invariant(self);
        }
        self.func_index.len()
    }

    /// Where `main` stands among the functions, if the program has one.
    pub fn main_index(&self) -> (r: Option<FuncIndex>)
        ensures
            self@.wf(),
            r == self@.index_of_main,
    {
        proof {
            use_type_invariant(self);
        }
        self.index_of_main
    }
}

} // verus!
