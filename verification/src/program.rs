use vstd::prelude::*;
use crate::positional::Position;

verus! {

/// The type of a variable, an argument or a return value.
#[derive(Debug)]
pub enum Type {
    /// 64-bit signed integers.
    Int,
    /// Booleans.
    Bool,
    /// 64-bit floating point numbers.
    Float,
    /// Single Unicode scalar values.
    Char,
    /// A pointer to values of the inner type.
    Pointer(Box<Type>),
}

impl Type {
    /// A copy of the type.
    pub fn copy(&self) -> (r: Type)
        ensures
            r == *self,
        decreases *self,
    {
        match self {
            Type::Int => Type::Int,
            Type::Bool => Type::Bool,
            Type::Float => Type::Float,
            Type::Char => Type::Char,
            Type::Pointer(inner) => Type::Pointer(Box::new(inner.copy())),
        }
    }

    /// Whether two types are the same type.
    pub fn same(&self, other: &Type) -> (r: bool)
        ensures
            r == (*self == *other),
        decreases *self,
    {
        match (self, other) {
            (Type::Int, Type::Int) => true,
            (Type::Bool, Type::Bool) => true,
            (Type::Float, Type::Float) => true,
            (Type::Char, Type::Char) => true,
            (Type::Pointer(a), Type::Pointer(b)) => a.same(b),
            _ => false,
        }
    }

    /// Whether the type is a pointer type.
    pub fn is_ptr(&self) -> (r: bool)
        ensures
            r == (*self is Pointer),
    {
        match self {
            Type::Pointer(_) => true,
            _ => false,
        }
    }
}

impl Clone for Type {
    fn clone(&self) -> (r: Self)
        ensures
            r == *self,
    {
        self.copy()
    }
}

/// A literal of a `const` instruction. A floating point literal is held as its
/// IEEE 754 bit pattern.
#[derive(Clone, Copy, Debug, PartialEq, Eq, Structural)]
pub enum Literal {
    /// An integer literal.
    Int(i64),
    /// A boolean literal.
    Bool(bool),
    /// The bit pattern of a floating point literal.
    Float(u64),
    /// A character literal.
    Char(char),
}

/// The one operation that produces a constant.
#[derive(Clone, Copy, Debug, PartialEq, Eq, Structural, Hash)]
pub enum ConstOps {
    /// `const`
    Const,
}

/// Operations that have an effect and no destination.
#[derive(Clone, Copy, Debug, PartialEq, Eq, Structural, Hash)]
pub enum EffectOps {
    /// `jmp`
    Jump,
    /// `br`
    Branch,
    /// `call`
    Call,
    /// `ret`
    Return,
    /// `print`
    Print,
    /// `nop`
    Nop,
    /// `store`
    Store,
    /// `free`
    Free,
}

/// Operations that write a destination variable.
#[derive(Clone, Copy, Debug, PartialEq, Eq, Structural, Hash)]
pub enum ValueOps {
    /// `add`
    Add,
    /// `sub`
    Sub,
    /// `mul`
    Mul,
    /// `div`
    Div,
    /// `eq`
    Eq,
    /// `lt`
    Lt,
    /// `gt`
    Gt,
    /// `le`
    Le,
    /// `ge`
    Ge,
    /// `not`
    Not,
    /// `and`
    And,
    /// `or`
    Or,
    /// `call`
    Call,
    /// `id`
    Id,
    /// `phi`
    Phi,
    /// `fadd`
    Fadd,
    /// `fsub`
    Fsub,
    /// `fmul`
    Fmul,
    /// `fdiv`
    Fdiv,
    /// `feq`
    Feq,
    /// `flt`
    Flt,
    /// `fgt`
    Fgt,
    /// `fle`
    Fle,
    /// `fge`
    Fge,
    /// `ceq`
    Ceq,
    /// `clt`
    Clt,
    /// `cgt`
    Cgt,
    /// `cle`
    Cle,
    /// `cge`
    Cge,
    /// `char2int`
    Char2int,
    /// `int2char`
    Int2char,
    /// `alloc`
    Alloc,
    /// `load`
    Load,
    /// `ptradd`
    PtrAdd,
}

/// A formal argument of a function.
#[derive(Clone, Debug)]
pub struct Argument {
    /// The argument's name.
    pub name: String,
    /// The argument's type.
    pub arg_type: Type,
}

/// One instruction, with its operands still named by strings.
#[derive(Clone, Debug)]
pub enum Instruction {
    /// `dest: const_type = const value`
    Constant {
        /// Always `const`.
        op: ConstOps,
        /// The variable written.
        dest: String,
        /// The declared type of `dest`.
        const_type: Type,
        /// The literal.
        value: Literal,
        /// Where the instruction stands in the source.
        pos: Option<Position>,
    },
    /// `dest: op_type = op args funcs labels`
    Value {
        /// The operation.
        op: ValueOps,
        /// The variable written.
        dest: String,
        /// The declared type of `dest`.
        op_type: Type,
        /// The variables read.
        args: Vec<String>,
        /// The functions named.
        funcs: Vec<String>,
        /// The labels named.
        labels: Vec<String>,
        /// Where the instruction stands in the source.
        pos: Option<Position>,
    },
    /// `op args funcs labels`
    Effect {
        /// The operation.
        op: EffectOps,
        /// The variables read.
        args: Vec<String>,
        /// The functions named.
        funcs: Vec<String>,
        /// The labels named.
        labels: Vec<String>,
        /// Where the instruction stands in the source.
        pos: Option<Position>,
    },
}

/// An element of a function body: a label or an instruction.
#[derive(Clone, Debug)]
pub enum Code {
    /// A label, which starts a basic block.
    Label {
        /// The label's name.
        label: String,
        /// Where the label stands in the source.
        pos: Option<Position>,
    },
    /// An instruction.
    Instruction(Instruction),
}

/// A function: a name, formal arguments, an optional return type and a flat body.
#[derive(Clone, Debug)]
pub struct Function {
    /// The function's name.
    pub name: String,
    /// The formal arguments, in declaration order.
    pub args: Vec<Argument>,
    /// The return type, if the function returns a value.
    pub return_type: Option<Type>,
    /// The body: labels and instructions as written.
    pub instrs: Vec<Code>,
    /// Where the function stands in the source.
    pub pos: Option<Position>,
}

/// A function taken from another file, under its own name or another.
#[derive(Clone, Debug)]
pub struct ImportedFunction {
    /// The name the function goes by here, if not its own.
    pub alias: Option<String>,
    /// The function's own name.
    pub name: String,
}

/// What a program takes from another file.
#[derive(Clone, Debug)]
pub struct Import {
    /// The functions taken.
    pub functions: Vec<ImportedFunction>,
    /// The file they are taken from.
    pub path: String,
}

/// A whole program: its functions in order.
#[derive(Clone, Debug)]
pub struct Program {
    /// What the program takes from other files.
    pub imports: Vec<Import>,
    /// The functions.
    pub functions: Vec<Function>,
}

impl Instruction {
    /// The source position of the instruction.
    pub open spec fn spec_pos(&self) -> Option<Position> {
        match self {
            Instruction::Constant { pos, .. } => *pos,
            Instruction::Value { pos, .. } => *pos,
            Instruction::Effect { pos, .. } => *pos,
        }
    }

    /// The source position of the instruction.
    pub fn get_pos(&self) -> (r: Option<Position>)
        ensures
            r == self.spec_pos(),
    {
        match self {
            Instruction::Constant { pos, .. } => *pos,
            Instruction::Value { pos, .. } => *pos,
            Instruction::Effect { pos, .. } => *pos,
        }
    }

    /// The variables that the instruction reads, if it is one that can read
    /// any: a constant has none.
    pub fn get_args(&self) -> (r: Option<&Vec<String>>)
        ensures
            r == match self {
                Instruction::Constant { .. } => None,
                Instruction::Value { args, .. } => Some(args),
                Instruction::Effect { args, .. } => Some(args),
            },
    {
        match self {
            Instruction::Constant { .. } => None,
            Instruction::Value { args, .. } => Some(args),
            Instruction::Effect { args, .. } => Some(args),
        }
    }

    /// The labels that the instruction names, if it is one that can name any.
    pub fn get_labels(&self) -> (r: Option<&Vec<String>>)
        ensures
            r == match self {
                Instruction::Constant { .. } => None,
                Instruction::Value { labels, .. } => Some(labels),
                Instruction::Effect { labels, .. } => Some(labels),
            },
    {
        match self {
            Instruction::Constant { .. } => None,
            Instruction::Value { labels, .. } => Some(labels),
            Instruction::Effect { labels, .. } => Some(labels),
        }
    }

    /// The variable that the instruction writes, if it writes one.
    pub fn get_dest(&self) -> (r: Option<&String>)
        ensures
            r == match self {
                Instruction::Constant { dest, .. } => Some(dest),
                Instruction::Value { dest, .. } => Some(dest),
                Instruction::Effect { .. } => None,
            },
    {
        match self {
            Instruction::Constant { dest, .. } => Some(dest),
            Instruction::Value { dest, .. } => Some(dest),
            Instruction::Effect { .. } => None,
        }
    }

    /// The declared type of what the instruction writes, if it writes
    /// anything.
    pub fn get_type(&self) -> (r: Option<&Type>)
        ensures
            r == match self {
                Instruction::Constant { const_type, .. } => Some(const_type),
                Instruction::Value { op_type, .. } => Some(op_type),
                Instruction::Effect { .. } => None,
            },
    {
        match self {
            Instruction::Constant { const_type, .. } => Some(const_type),
            Instruction::Value { op_type, .. } => Some(op_type),
            Instruction::Effect { .. } => None,
        }
    }

    /// Gives the instruction the variables `new_args` to read.
    pub fn set_args(&mut self, new_args: Vec<String>)
        requires
            !(*old(self) is Constant),
        ensures
            *final(self) == match *old(self) {
                Instruction::Value { op, dest, op_type, args, funcs, labels, pos } => Instruction::Value {
                    op,
                    dest,
                    op_type,
                    args: new_args,
                    funcs,
                    labels,
                    pos,
                },
                Instruction::Effect { op, args, funcs, labels, pos } => Instruction::Effect {
                    op,
                    args: new_args,
                    funcs,
                    labels,
                    pos,
                },
                other => other,
            },
    {
        match self {
            Instruction::Constant { .. } => {},
            Instruction::Value { args, .. } => {
                *args = new_args;
            },
            Instruction::Effect { args, .. } => {
                *args = new_args;
            },
        }
    }

    /// Gives the instruction the labels `new_labels` to name.
    pub fn set_labels(&mut self, new_labels: Vec<String>)
        requires
            !(*old(self) is Constant),
        ensures
            *final(self) == match *old(self) {
                Instruction::Value { op, dest, op_type, args, funcs, labels, pos } => Instruction::Value {
                    op,
                    dest,
                    op_type,
                    args,
                    funcs,
                    labels: new_labels,
                    pos,
                },
                Instruction::Effect { op, args, funcs, labels, pos } => Instruction::Effect {
                    op,
                    args,
                    funcs,
                    labels: new_labels,
                    pos,
                },
                other => other,
            },
    {
        match self {
            Instruction::Constant { .. } => {},
            Instruction::Value { labels, .. } => {
                *labels = new_labels;
            },
            Instruction::Effect { labels, .. } => {
                *labels = new_labels;
            },
        }
    }

    /// Gives the instruction the variable `new_dest` to write.
    pub fn set_dest(&mut self, new_dest: String)
        requires
            !(*old(self) is Effect),
        ensures
            *final(self) == match *old(self) {
                Instruction::Constant { op, dest, const_type, value, pos } => Instruction::Constant {
                    op,
                    dest: new_dest,
                    const_type,
                    value,
                    pos,
                },
                Instruction::Value { op, dest, op_type, args, funcs, labels, pos } => Instruction::Value {
                    op,
                    dest: new_dest,
                    op_type,
                    args,
                    funcs,
                    labels,
                    pos,
                },
                other => other,
            },
    {
        match self {
            Instruction::Constant { dest, .. } => {
                *dest = new_dest;
            },
            Instruction::Value { dest, .. } => {
                *dest = new_dest;
            },
            Instruction::Effect { .. } => {},
        }
    }

    /// Whether the instruction is anything but a `phi`.
    pub fn not_phi(&self) -> (r: bool)
        ensures
            r == !(self matches Instruction::Value { op: ValueOps::Phi, .. }),
    {
        match self {
            Instruction::Value { op: ValueOps::Phi, .. } => false,
            _ => true,
        }
    }

    /// Whether the instruction ends a basic block: a jump, a branch or a return.
    pub open spec fn is_terminator(&self) -> bool {
        match self {
            Instruction::Effect { op, .. } => *op == EffectOps::Jump || *op == EffectOps::Branch
                || *op == EffectOps::Return,
            _ => false,
        }
    }

    /// Whether the instruction ends a basic block.
    pub fn ends_block(&self) -> (r: bool)
        ensures
            r == self.is_terminator(),
    {
        match self {
            Instruction::Effect { op: EffectOps::Jump, .. } => true,
            Instruction::Effect { op: EffectOps::Branch, .. } => true,
            Instruction::Effect { op: EffectOps::Return, .. } => true,
            _ => false,
        }
    }
}

} // verus!
