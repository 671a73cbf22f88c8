//! What the compiler computes, as functions on a mathematical state.
//!
//! The state is the stack of function frames under construction, the functions
//! already completed and the table of strings that constants refer to.  Each
//! function here says what one step of compilation makes of a state; the
//! executable compiler is proved to compute exactly these.
use vstd::prelude::*;
use super::ast::{ExpressionNode, StatementNode};
use super::object::{FunctionObject, FunctionType, FunctionView};
use super::scope::{LocalView, Upvalue};
use crate::vm::chunk::{
    OP_ADD, OP_ARRAY, OP_CALL, OP_CLASS, OP_CLOSE_UPVALUE, OP_CLOSURE, OP_CONSTANT, OP_CONSTANT0,
    OP_COUNTUP, OP_DEFINE_GLOBAL, OP_DIVIDE, OP_EQUAL, OP_FALSE, OP_GET_GLOBAL, OP_GET_LOCAL,
    OP_GET_PROP, OP_GET_SUPER, OP_GET_UPVALUE, OP_GREATER, OP_INDEX_CALL, OP_INDEX_SET, OP_INHERIT,
    OP_INVOKE, OP_JUMP, OP_JUMP_IF_FALSE, OP_JUMP_IF_RANGE_END, OP_LESS, OP_LOOP, OP_METHOD,
    OP_MULTIPLY, OP_NEGATIVE, OP_NOT, OP_NULL, OP_POP, OP_POW, OP_PRINT, OP_RANGE, OP_REM,
    OP_RETURN, OP_SET_GLOBAL, OP_SET_LOCAL, OP_SET_PROP, OP_SET_UPVALUE, OP_SUBTRACT,
    OP_SUPER_INVOKE, OP_TRUE,
};
use crate::vm::value::Value;

verus! {

/// Most locals a function can have, slot 0 included.
pub const LOCAL_MAX: usize = 256;

/// Most upvalues a function can capture.
pub const UPVALUE_MAX: usize = 32;

/// Largest distance a jump can span.
pub const JUMP_MAX: usize = 0xffff;

/// Why compilation stopped.
#[derive(Debug, Clone, Copy, PartialEq, Eq, Structural)]
pub enum CompileError {
    /// A local of that name already exists in the current scope.
    DuplicateLocal,
    /// The function would have more than `LOCAL_MAX` locals.
    TooManyLocals,
    /// The function would capture more than `UPVALUE_MAX` variables.
    TooManyUpvalues,
    /// The constant pool of the function is full.
    TooManyConstants,
    /// There are more functions than can be numbered.
    TooManyFunctions,
    /// A call or an array literal has more than 255 operands.
    TooManyOperands,
    /// Scopes are nested deeper than can be counted.
    TooManyScopes,
    /// A class names itself as its superclass.
    SelfInheritance,
    /// `this` stands outside any class.
    ThisOutsideClass,
    /// A node stands where the grammar cannot have put it.
    MalformedAst,
    /// A jump would span more than `JUMP_MAX` bytes.
    JumpTooFar,
    /// A jump is to be patched or aimed where there is no code.
    MissingInstruction,
}

/// One function under construction.
pub struct FrameView {
    pub function: FunctionView,
    pub function_type: FunctionType,
    pub locals: Seq<LocalView>,
    pub upvalues: Seq<Upvalue>,
    pub scope_depth: int,
}

/// The whole state of a compilation.
pub struct CompilerView {
    pub frames: Seq<FrameView>,
    pub functions: Seq<FunctionView>,
    pub strings: Seq<Seq<char>>,
}

/// Name of the local in slot 0: `this` in methods and initializers, empty
/// otherwise.
pub open spec fn receiver_name(function_type: FunctionType) -> Seq<char> {
    match function_type {
        FunctionType::Method | FunctionType::Init => "this"@,
        _ => Seq::empty(),
    }
}

/// The slot of the innermost local called `name` among the first `upto`.
pub open spec fn find_local(locals: Seq<LocalView>, name: Seq<char>, upto: int) -> Option<int>
    decreases upto,
{
    if upto <= 0 {
        None
    } else if locals[upto - 1].name == name {
        Some(upto - 1)
    } else {
        find_local(locals, name, upto - 1)
    }
}

/// A local called `name` was declared in the scope of depth `depth`, looking
/// at the first `upto` locals from the innermost outwards.
pub open spec fn declared_in_scope(
    locals: Seq<LocalView>,
    name: Seq<char>,
    depth: int,
    upto: int,
) -> bool
    decreases upto,
{
    if upto <= 0 {
        false
    } else if locals[upto - 1].depth != -1 && locals[upto - 1].depth < depth {
        false
    } else if locals[upto - 1].name == name {
        true
    } else {
        declared_in_scope(locals, name, depth, upto - 1)
    }
}

/// The first position at or after `from` that holds `target`.
pub open spec fn find_upvalue(upvalues: Seq<Upvalue>, target: Upvalue, from: int) -> Option<int>
    decreases upvalues.len() - from,
{
    if from < 0 || from >= upvalues.len() {
        None
    } else if upvalues[from] == target {
        Some(from)
    } else {
        find_upvalue(upvalues, target, from + 1)
    }
}

impl FrameView {
    /// A fresh frame: slot 0 reserved, nothing emitted.
    pub open spec fn fresh(name: Seq<char>, function_type: FunctionType, arity: int) -> FrameView {
        FrameView {
            function: FunctionObject::empty(name, arity),
            function_type,
            locals: seq![
                LocalView { name: receiver_name(function_type), depth: 0, is_captured: false },
            ],
            upvalues: Seq::empty(),
            scope_depth: 0,
        }
    }

    /// The capacities hold and every descriptor fits in a byte.
    pub open spec fn wf(self) -> bool {
        &&& self.locals.len() <= LOCAL_MAX
        &&& self.upvalues.len() <= UPVALUE_MAX
        &&& self.function.upvalue_count == self.upvalues.len()
        &&& self.function.constants.len() <= 256
        &&& self.function.lines.len() == self.function.code.len()
        &&& 0 <= self.scope_depth <= i32::MAX
        &&& forall|i: int| 0 <= i < self.upvalues.len() ==> (#[trigger] self.upvalues[i]).index < 256
    }

    pub open spec fn emit(self, byte: u8) -> FrameView {
        FrameView {
            function: FunctionView {
                code: self.function.code.push(byte),
                lines: self.function.lines.push(0),
                ..self.function
            },
            ..self
        }
    }

    pub open spec fn set_code(self, index: int, byte: u8) -> FrameView {
        FrameView {
            function: FunctionView { code: self.function.code.update(index, byte), ..self.function },
            ..self
        }
    }

    pub open spec fn push_constant(self, value: Value) -> FrameView {
        FrameView {
            function: FunctionView {
                constants: self.function.constants.push(value),
                ..self.function
            },
            ..self
        }
    }

    pub open spec fn push_local(self, name: Seq<char>) -> FrameView {
        FrameView {
            locals: self.locals.push(
                LocalView { name, depth: self.scope_depth, is_captured: false },
            ),
            ..self
        }
    }

    pub open spec fn capture(self, slot: int) -> FrameView {
        FrameView {
            locals: self.locals.update(
                slot,
                LocalView { is_captured: true, ..self.locals[slot] },
            ),
            ..self
        }
    }

    pub open spec fn push_upvalue(self, upvalue: Upvalue) -> FrameView {
        FrameView {
            function: FunctionView {
                upvalue_count: self.function.upvalue_count + 1,
                ..self.function
            },
            upvalues: self.upvalues.push(upvalue),
            ..self
        }
    }

    /// Discards the innermost locals that lie deeper than the current scope,
    /// emitting for each the instruction that removes it from the stack.
    pub open spec fn discard_locals(self) -> FrameView
        decreases self.locals.len(),
    {
        if self.locals.len() > 0 && self.locals.last().depth > self.scope_depth {
            let op = if self.locals.last().is_captured {
                OP_CLOSE_UPVALUE
            } else {
                OP_POP
            };
            (FrameView { locals: self.locals.drop_last(), ..self.emit(op) }).discard_locals()
        } else {
            self
        }
    }
}

impl CompilerView {
    /// A compilation with a single fresh frame.
    pub open spec fn root(name: Seq<char>, function_type: FunctionType, arity: int) -> CompilerView {
        CompilerView {
            frames: seq![FrameView::fresh(name, function_type, arity)],
            functions: Seq::empty(),
            strings: Seq::empty(),
        }
    }

    pub open spec fn wf(self) -> bool {
        &&& self.frames.len() > 0
        &&& forall|i: int| 0 <= i < self.frames.len() ==> (#[trigger] self.frames[i]).wf()
    }

    /// The scope depth of every frame, outermost first.
    pub open spec fn shape(self) -> Seq<int> {
        Seq::new(self.frames.len(), |i: int| self.frames[i].scope_depth)
    }

    /// The frame of the function now being compiled.
    pub open spec fn top(self) -> FrameView {
        self.frames.last()
    }

    pub open spec fn set_frame(self, level: int, frame: FrameView) -> CompilerView {
        CompilerView { frames: self.frames.update(level, frame), ..self }
    }

    pub open spec fn set_top(self, frame: FrameView) -> CompilerView {
        self.set_frame(self.frames.len() - 1, frame)
    }

    #[verifier::opaque]
    pub open spec fn push_frame(
        self,
        name: Seq<char>,
        function_type: FunctionType,
        arity: int,
    ) -> CompilerView {
        CompilerView {
            frames: self.frames.push(FrameView::fresh(name, function_type, arity)),
            ..self
        }
    }

    #[verifier::opaque]
    pub open spec fn emit(self, byte: u8) -> CompilerView {
        self.set_top(self.top().emit(byte))
    }

    pub open spec fn emit2(self, first: u8, second: u8) -> CompilerView {
        self.emit(first).emit(second)
    }

    /// Adds a constant to the current function and gives its index.
    #[verifier::opaque]
    pub open spec fn add_constant(self, value: Value) -> Result<(CompilerView, u8), CompileError> {
        if self.top().function.constants.len() >= 256 {
            Err(CompileError::TooManyConstants)
        } else {
            Ok(
                (
                    self.set_top(self.top().push_constant(value)),
                    self.top().function.constants.len() as u8,
                ),
            )
        }
    }

    /// Adds `text` to the string table and a constant that refers to it.
    #[verifier::opaque]
    pub open spec fn add_text(self, text: Seq<char>) -> Result<(CompilerView, u8), CompileError> {
        (CompilerView { strings: self.strings.push(text), ..self }).add_constant(
            Value::String(self.strings.len() as usize),
        )
    }

    /// Adds a constant and emits `op` with its index.
    pub open spec fn emit_constant(self, op: u8, value: Value) -> Result<
        CompilerView,
        CompileError,
    > {
        match self.add_constant(value) {
            Err(e) => Err(e),
            Ok((c, index)) => Ok(c.emit2(op, index)),
        }
    }

    /// Adds `text` as a constant and emits `op` with its index.
    pub open spec fn emit_text(self, op: u8, text: Seq<char>) -> Result<
        CompilerView,
        CompileError,
    > {
        match self.add_text(text) {
            Err(e) => Err(e),
            Ok((c, index)) => Ok(c.emit2(op, index)),
        }
    }

    /// Registers in frame `level` a capture of `index`, reusing the
    /// descriptor if the frame has it already.
    #[verifier::opaque]
    pub open spec fn add_upvalue(self, level: int, index: int, is_local: bool) -> Result<
        (CompilerView, Option<u8>),
        CompileError,
    > {
        let frame = self.frames[level];
        let target = Upvalue { index: index as usize, is_local };
        match find_upvalue(frame.upvalues, target, 0) {
            Some(found) => Ok((self, Some(found as u8))),
            None => if frame.upvalues.len() >= UPVALUE_MAX {
                Err(CompileError::TooManyUpvalues)
            } else {
                Ok(
                    (
                        self.set_frame(level, frame.push_upvalue(target)),
                        Some(frame.upvalues.len() as u8),
                    ),
                )
            },
        }
    }

    /// Resolves `name` as an upvalue of frame `level`: a local of the
    /// enclosing frame, which is then marked captured, or else an upvalue of
    /// the enclosing frame, found in the same way.
    #[verifier::opaque]
    pub open spec fn resolve_upvalue(self, level: int, name: Seq<char>) -> Result<
        (CompilerView, Option<u8>),
        CompileError,
    >
        decreases level,
    {
        if level <= 0 {
            Ok((self, None))
        } else {
            let outer = self.frames[level - 1];
            match find_local(outer.locals, name, outer.locals.len() as int) {
                Some(slot) => self.set_frame(level - 1, outer.capture(slot)).add_upvalue(
                    level,
                    slot,
                    true,
                ),
                None => match self.resolve_upvalue(level - 1, name) {
                    Err(e) => Err(e),
                    Ok((c, None)) => Ok((c, None)),
                    Ok((c, Some(index))) => c.add_upvalue(level, index as int, false),
                },
            }
        }
    }

    /// Emits the access to the variable `name`: as a local, else as an
    /// upvalue, else as a global.
    #[verifier::opaque]
    pub open spec fn named_variable(
        self,
        name: Seq<char>,
        local_op: u8,
        upvalue_op: u8,
        global_op: u8,
    ) -> Result<CompilerView, CompileError> {
        match find_local(self.top().locals, name, self.top().locals.len() as int) {
            Some(slot) => Ok(self.emit2(local_op, slot as u8)),
            None => match self.resolve_upvalue(self.frames.len() - 1, name) {
                Err(e) => Err(e),
                Ok((c, Some(index))) => Ok(c.emit2(upvalue_op, index)),
                Ok((c, None)) => c.emit_text(global_op, name),
            },
        }
    }

    pub open spec fn load(self, name: Seq<char>) -> Result<CompilerView, CompileError> {
        self.named_variable(name, OP_GET_LOCAL, OP_GET_UPVALUE, OP_GET_GLOBAL)
    }

    pub open spec fn store(self, name: Seq<char>) -> Result<CompilerView, CompileError> {
        self.named_variable(name, OP_SET_LOCAL, OP_SET_UPVALUE, OP_SET_GLOBAL)
    }

    #[verifier::opaque]
    pub open spec fn begin_scope(self) -> Result<CompilerView, CompileError> {
        if self.top().scope_depth >= i32::MAX {
            Err(CompileError::TooManyScopes)
        } else {
            Ok(self.set_top(FrameView { scope_depth: self.top().scope_depth + 1, ..self.top() }))
        }
    }

    #[verifier::opaque]
    pub open spec fn end_scope(self) -> CompilerView {
        self.set_top(
            (FrameView { scope_depth: self.top().scope_depth - 1, ..self.top() }).discard_locals(),
        )
    }

    /// Declares a local in the current scope.
    #[verifier::opaque]
    pub open spec fn add_local(self, name: Seq<char>) -> Result<CompilerView, CompileError> {
        let frame = self.top();
        if frame.locals.len() >= LOCAL_MAX {
            Err(CompileError::TooManyLocals)
        } else if declared_in_scope(
            frame.locals,
            name,
            frame.scope_depth,
            frame.locals.len() as int,
        ) {
            Err(CompileError::DuplicateLocal)
        } else {
            Ok(self.set_top(frame.push_local(name)))
        }
    }

    /// Binds the value on top of the stack to `name`: a local inside a scope,
    /// a global at the top level.
    #[verifier::opaque]
    pub open spec fn define(self, name: Seq<char>) -> Result<CompilerView, CompileError> {
        if self.top().scope_depth > 0 {
            self.add_local(name)
        } else {
            self.emit_text(OP_DEFINE_GLOBAL, name)
        }
    }

    /// Length of the code emitted so far for the current function.
    pub open spec fn here(self) -> int {
        self.top().function.code.len() as int
    }

    /// Emits a jump with a placeholder distance; `here() - 2` is then the
    /// site to patch.
    #[verifier::opaque]
    pub open spec fn emit_jump(self, op: u8) -> CompilerView {
        self.emit(op).emit(0xff).emit(0xff)
    }

    /// Makes the jump whose distance lies at `site` land at the current end
    /// of the code.
    #[verifier::opaque]
    pub open spec fn patch_jump(self, site: int) -> Result<CompilerView, CompileError> {
        if site < 0 || site + 2 > self.here() {
            Err(CompileError::MissingInstruction)
        } else if self.here() - site - 2 > JUMP_MAX {
            Err(CompileError::JumpTooFar)
        } else {
            let distance = self.here() - site - 2;
            Ok(
                self.set_top(
                    self.top().set_code(site, (distance / 256) as u8).set_code(
                        site + 1,
                        (distance % 256) as u8,
                    ),
                ),
            )
        }
    }

    /// Emits a jump back to `start`.
    #[verifier::opaque]
    pub open spec fn emit_loop(self, start: int) -> Result<CompilerView, CompileError> {
        if start < 0 || start > self.here() {
            Err(CompileError::MissingInstruction)
        } else if self.here() + 3 - start > JUMP_MAX {
            Err(CompileError::JumpTooFar)
        } else {
            let distance = self.here() + 3 - start;
            Ok(self.emit(OP_LOOP).emit((distance / 256) as u8).emit((distance % 256) as u8))
        }
    }

    /// Emits, for each captured variable from position `from` on, the pair of
    /// bytes that tells the machine where to find it.
    pub open spec fn emit_captures(self, upvalues: Seq<Upvalue>, from: int) -> CompilerView
        decreases upvalues.len() - from,
    {
        if from < 0 || from >= upvalues.len() {
            self
        } else {
            self.emit2(
                if upvalues[from].is_local {
                    1u8
                } else {
                    0u8
                },
                upvalues[from].index as u8,
            ).emit_captures(upvalues, from + 1)
        }
    }

    /// Takes the finished innermost frame off the stack, files its function
    /// and emits in the enclosing function the instruction that makes a
    /// closure of it.
    #[verifier::opaque]
    pub open spec fn close_function(self) -> Result<CompilerView, CompileError> {
        let done = self.top();
        let outer = CompilerView {
            frames: self.frames.drop_last(),
            functions: self.functions.push(done.function),
            ..self
        };
        if self.functions.len() >= usize::MAX {
            Err(CompileError::TooManyFunctions)
        } else {
            match outer.emit_constant(
                OP_CLOSURE,
                Value::Function(self.functions.len() as usize),
            ) {
                Err(e) => Err(e),
                Ok(c) => Ok(c.emit_captures(done.upvalues, 0)),
            }
        }
    }
}

/// The shape has one entry for each frame, and its last entry is the depth of
/// the current scope.
pub proof fn lemma_shape(c: CompilerView)
    ensures
        c.shape().len() == c.frames.len(),
        c.frames.len() > 0 ==> c.shape().last() == c.top().scope_depth,
{
}

/// The name that an identifier node carries.
pub open spec fn identifier(node: &ExpressionNode) -> Option<Seq<char>> {
    match node {
        ExpressionNode::Identifer(name) => Some(name@),
        _ => None,
    }
}

/// Emits the instructions of a binary operator; nothing for an unknown one.
#[verifier::opaque]
pub open spec fn emit_infix(c: CompilerView, ope: Seq<char>) -> CompilerView {
    if ope == "+"@ {
        c.emit(OP_ADD)
    } else if ope == "-"@ {
        c.emit(OP_SUBTRACT)
    } else if ope == "*"@ {
        c.emit(OP_MULTIPLY)
    } else if ope == "/"@ {
        c.emit(OP_DIVIDE)
    } else if ope == "^"@ {
        c.emit(OP_POW)
    } else if ope == "%"@ {
        c.emit(OP_REM)
    } else if ope == "!="@ {
        c.emit(OP_EQUAL).emit(OP_NOT)
    } else if ope == "=="@ {
        c.emit(OP_EQUAL)
    } else if ope == ">"@ {
        c.emit(OP_GREATER)
    } else if ope == ">="@ {
        c.emit(OP_LESS).emit(OP_NOT)
    } else if ope == "<"@ {
        c.emit(OP_LESS)
    } else if ope == "<="@ {
        c.emit(OP_GREATER).emit(OP_NOT)
    } else {
        c
    }
}

/// Emits the instruction of a unary operator; nothing for an unknown one.
#[verifier::opaque]
pub open spec fn emit_prefix(c: CompilerView, ope: Seq<char>) -> CompilerView {
    if ope == "-"@ {
        c.emit(OP_NEGATIVE)
    } else if ope == "!"@ {
        c.emit(OP_NOT)
    } else {
        c
    }
}

/// Compiles an expression: the code that leaves its value on the stack.
pub open spec fn compile_exp(c: CompilerView, in_class: bool, e: &ExpressionNode) -> Result<
    CompilerView,
    CompileError,
>
    decreases e, 1int,
{
    match e {
        ExpressionNode::ArrayLiteral(_) | ExpressionNode::FunCall { .. } => exp_sequence(
            c,
            in_class,
            e,
        ),
        ExpressionNode::GetProperty { .. } | ExpressionNode::GetSuperProperty { .. } => exp_property(
            c,
            in_class,
            e,
        ),
        ExpressionNode::InvokeMethod { .. } => exp_invoke(c, in_class, e),
        ExpressionNode::InvokeSuperMethod { .. } => exp_super_invoke(c, in_class, e),
        ExpressionNode::Logical { .. } => exp_logical(c, in_class, e),
        ExpressionNode::Assign { .. } => exp_assign(c, in_class, e),
        ExpressionNode::RangeLiteral { .. } | ExpressionNode::Prefix { .. } | ExpressionNode::Infix {
            ..
        } | ExpressionNode::IndexCall { .. } => exp_operation(c, in_class, e),
        _ => exp_atom(c, in_class, e),
    }
}

/// A name, a literal, or a property target standing alone, which emits
/// nothing.
#[verifier::opaque]
pub open spec fn exp_atom(c: CompilerView, in_class: bool, e: &ExpressionNode) -> Result<
    CompilerView,
    CompileError,
> {
    match e {
        ExpressionNode::Identifer(name) => {
            if name@ == "this"@ && !in_class {
                Err(CompileError::ThisOutsideClass)
            } else {
                c.load(name@)
            }
        },
        ExpressionNode::StringLiteral(text) => c.emit_text(OP_CONSTANT, text@),
        ExpressionNode::FloatLiteral(bits) => c.emit_constant(OP_CONSTANT, Value::Float(*bits)),
        ExpressionNode::IntegerLiteral(number) => c.emit_constant(
            OP_CONSTANT,
            Value::Integer(*number),
        ),
        ExpressionNode::BooleanLiteral(truth) => Ok(
            c.emit(
                if *truth {
                    OP_TRUE
                } else {
                    OP_FALSE
                },
            ),
        ),
        ExpressionNode::NullLiteral => Ok(c.emit(OP_NULL)),
        _ => Ok(c),
    }
}

/// An array literal or a call: the operands in order, then the instruction
/// that takes them.
#[verifier::opaque]
pub open spec fn exp_sequence(c: CompilerView, in_class: bool, e: &ExpressionNode) -> Result<
    CompilerView,
    CompileError,
>
    decreases e, 0int,
{
    match e {
        ExpressionNode::ArrayLiteral(items) => {
            if items@.len() > 255 {
                Err(CompileError::TooManyOperands)
            } else {
                match compile_exps(c, in_class, items@, 0) {
                    Err(e) => Err(e),
                    Ok(c1) => Ok(c1.emit2(OP_ARRAY, items@.len() as u8)),
                }
            }
        },
        ExpressionNode::FunCall { function, arguments } => match compile_exp(c, in_class, function) {
            Err(e) => Err(e),
            Ok(c1) => if arguments@.len() > 255 {
                Err(CompileError::TooManyOperands)
            } else {
                match compile_exps(c1, in_class, arguments@, 0) {
                    Err(e) => Err(e),
                    Ok(c2) => Ok(c2.emit2(OP_CALL, arguments@.len() as u8)),
                }
            },
        },
        _ => Ok(c),
    }
}

/// A range, a unary or a binary operation, or an index read: the operands,
/// then the operator.
#[verifier::opaque]
pub open spec fn exp_operation(c: CompilerView, in_class: bool, e: &ExpressionNode) -> Result<
    CompilerView,
    CompileError,
>
    decreases e, 0int,
{
    match e {
        ExpressionNode::RangeLiteral { start, end } => match compile_exp(c, in_class, start) {
            Err(e) => Err(e),
            Ok(c1) => match compile_exp(c1, in_class, end) {
                Err(e) => Err(e),
                Ok(c2) => Ok(c2.emit(OP_RANGE)),
            },
        },
        ExpressionNode::Prefix { ope, right } => match compile_exp(c, in_class, right) {
            Err(e) => Err(e),
            Ok(c1) => Ok(emit_prefix(c1, ope@)),
        },
        ExpressionNode::Infix { ope, left, right } => match compile_exp(c, in_class, left) {
            Err(e) => Err(e),
            Ok(c1) => match compile_exp(c1, in_class, right) {
                Err(e) => Err(e),
                Ok(c2) => Ok(emit_infix(c2, ope@)),
            },
        },
        ExpressionNode::IndexCall { array, index } => match compile_exp(c, in_class, array) {
            Err(e) => Err(e),
            Ok(c1) => match compile_exp(c1, in_class, index) {
                Err(e) => Err(e),
                Ok(c2) => Ok(c2.emit(OP_INDEX_CALL)),
            },
        },
        _ => Ok(c),
    }
}

/// A property read, on an object or on the superclass.
#[verifier::opaque]
pub open spec fn exp_property(c: CompilerView, in_class: bool, e: &ExpressionNode) -> Result<
    CompilerView,
    CompileError,
>
    decreases e, 0int,
{
    match e {
        ExpressionNode::GetProperty { left, right } => match compile_exp(c, in_class, left) {
            Err(e) => Err(e),
            Ok(c1) => match identifier(right) {
                None => Err(CompileError::MalformedAst),
                Some(name) => c1.emit_text(OP_GET_PROP, name),
            },
        },
        ExpressionNode::GetSuperProperty { left, right } => match c.load("this"@) {
            Err(e) => Err(e),
            Ok(c1) => match identifier(right) {
                None => Err(CompileError::MalformedAst),
                Some(name) => match c1.add_text(name) {
                    Err(e) => Err(e),
                    Ok((c2, index)) => match c2.load("super"@) {
                        Err(e) => Err(e),
                        Ok(c3) => Ok(c3.emit2(OP_GET_SUPER, index)),
                    },
                },
            },
        },
        _ => Ok(c),
    }
}

/// A method call on an object: the receiver, the arguments, then the fused
/// lookup and call.
#[verifier::opaque]
pub open spec fn exp_invoke(c: CompilerView, in_class: bool, e: &ExpressionNode) -> Result<
    CompilerView,
    CompileError,
>
    decreases e, 0int,
{
    match e {
        ExpressionNode::InvokeMethod { left, right, arguments } => match compile_exp(
            c,
            in_class,
            left,
        ) {
            Err(e) => Err(e),
            Ok(c1) => match identifier(right) {
                None => Err(CompileError::MalformedAst),
                Some(name) => if arguments@.len() > 255 {
                    Err(CompileError::TooManyOperands)
                } else {
                    match compile_exps(c1, in_class, arguments@, 0) {
                        Err(e) => Err(e),
                        Ok(c2) => match c2.emit_text(OP_INVOKE, name) {
                            Err(e) => Err(e),
                            Ok(c3) => Ok(c3.emit(arguments@.len() as u8)),
                        },
                    }
                },
            },
        },
        _ => Ok(c),
    }
}

/// A call of a method of the superclass: `this`, the arguments, `super`,
/// then the call.
#[verifier::opaque]
pub open spec fn exp_super_invoke(c: CompilerView, in_class: bool, e: &ExpressionNode) -> Result<
    CompilerView,
    CompileError,
>
    decreases e, 0int,
{
    match e {
        ExpressionNode::InvokeSuperMethod { left, right, arguments } => match c.load("this"@) {
            Err(e) => Err(e),
            Ok(c1) => match identifier(right) {
                None => Err(CompileError::MalformedAst),
                Some(name) => if arguments@.len() > 255 {
                    Err(CompileError::TooManyOperands)
                } else {
                    match compile_exps(c1, in_class, arguments@, 0) {
                        Err(e) => Err(e),
                        Ok(c2) => match c2.add_text(name) {
                            Err(e) => Err(e),
                            Ok((c3, index)) => match c3.load("super"@) {
                                Err(e) => Err(e),
                                Ok(c4) => Ok(
                                    c4.emit2(OP_SUPER_INVOKE, index).emit(
                                        arguments@.len() as u8,
                                    ),
                                ),
                            },
                        },
                    }
                },
            },
        },
        _ => Ok(c),
    }
}

/// `and` and `or`, which leave the deciding operand on the stack; any other
/// operator emits nothing.
#[verifier::opaque]
pub open spec fn exp_logical(c: CompilerView, in_class: bool, e: &ExpressionNode) -> Result<
    CompilerView,
    CompileError,
>
    decreases e, 0int,
{
    match e {
        ExpressionNode::Logical { ope, left, right } => {
            if ope@ == "and"@ {
                match compile_exp(c, in_class, left) {
                    Err(e) => Err(e),
                    Ok(c1) => {
                        let c2 = c1.emit_jump(OP_JUMP_IF_FALSE);
                        match compile_exp(c2.emit(OP_POP), in_class, right) {
                            Err(e) => Err(e),
                            Ok(c3) => c3.patch_jump(c2.here() - 2),
                        }
                    },
                }
            } else if ope@ == "or"@ {
                match compile_exp(c, in_class, left) {
                    Err(e) => Err(e),
                    Ok(c1) => {
                        let c2 = c1.emit_jump(OP_JUMP_IF_FALSE);
                        let c3 = c2.emit_jump(OP_JUMP);
                        match c3.patch_jump(c2.here() - 2) {
                            Err(e) => Err(e),
                            Ok(c4) => match compile_exp(c4.emit(OP_POP), in_class, right) {
                                Err(e) => Err(e),
                                Ok(c5) => c5.patch_jump(c3.here() - 2),
                            },
                        }
                    },
                }
            } else {
                Ok(c)
            }
        },
        _ => Ok(c),
    }
}

/// An assignment with `=` to a variable, a property or an array element; any
/// other operator emits nothing.
#[verifier::opaque]
pub open spec fn exp_assign(c: CompilerView, in_class: bool, e: &ExpressionNode) -> Result<
    CompilerView,
    CompileError,
>
    decreases e, 0int,
{
    match e {
        ExpressionNode::Assign { ope, left, right } => {
            if ope@ == "="@ {
                match &**left {
                    ExpressionNode::Identifer(name) => match compile_exp(c, in_class, right) {
                        Err(e) => Err(e),
                        Ok(c1) => c1.store(name@),
                    },
                    ExpressionNode::SetProperty { left: object, right: property } => match compile_exp(
                        c,
                        in_class,
                        object,
                    ) {
                        Err(e) => Err(e),
                        Ok(c1) => match identifier(property) {
                            None => Err(CompileError::MalformedAst),
                            Some(name) => match c1.add_text(name) {
                                Err(e) => Err(e),
                                Ok((c2, index)) => match compile_exp(c2, in_class, right) {
                                    Err(e) => Err(e),
                                    Ok(c3) => Ok(c3.emit2(OP_SET_PROP, index)),
                                },
                            },
                        },
                    },
                    ExpressionNode::IndexCall { array, index } => match compile_exp(
                        c,
                        in_class,
                        array,
                    ) {
                        Err(e) => Err(e),
                        Ok(c1) => match compile_exp(c1, in_class, index) {
                            Err(e) => Err(e),
                            Ok(c2) => match compile_exp(c2, in_class, right) {
                                Err(e) => Err(e),
                                Ok(c3) => Ok(c3.emit(OP_INDEX_SET)),
                            },
                        },
                    },
                    _ => Err(CompileError::MalformedAst),
                }
            } else {
                Ok(c)
            }
        },
        _ => Ok(c),
    }
}

/// Compiles the expressions of `es` from position `from` on, left to right.
pub open spec fn compile_exps(
    c: CompilerView,
    in_class: bool,
    es: Seq<ExpressionNode>,
    from: int,
) -> Result<CompilerView, CompileError>
    decreases es, es.len() - from,
{
    if from < 0 || from >= es.len() {
        Ok(c)
    } else {
        match compile_exp(c, in_class, &es[from]) {
            Err(e) => Err(e),
            Ok(c1) => compile_exps(c1, in_class, es, from + 1),
        }
    }
}

/// Declares the parameters of `params` from position `from` on as locals.
pub open spec fn add_params(c: CompilerView, params: Seq<ExpressionNode>, from: int) -> Result<
    CompilerView,
    CompileError,
>
    decreases params.len() - from,
{
    if from < 0 || from >= params.len() {
        Ok(c)
    } else {
        match identifier(&params[from]) {
            None => Err(CompileError::MalformedAst),
            Some(name) => match c.add_local(name) {
                Err(e) => Err(e),
                Ok(c1) => add_params(c1, params, from + 1),
            },
        }
    }
}

/// Emits the load of the innermost local called `name` under `op`, if there
/// is one.
#[verifier::opaque]
pub open spec fn emit_slot(c: CompilerView, op: u8, name: Seq<char>) -> CompilerView {
    match find_local(c.top().locals, name, c.top().locals.len() as int) {
        Some(slot) => c.emit2(op, slot as u8),
        None => c,
    }
}

/// Emits the creation of the class `name` and binds it: a local inside a
/// scope, a global at the top level.
#[verifier::opaque]
pub open spec fn declare_class(c: CompilerView, name: Seq<char>) -> Result<
    CompilerView,
    CompileError,
> {
    match c.add_text(name) {
        Err(e) => Err(e),
        Ok((c1, index)) => if c1.top().scope_depth > 0 {
            match c1.add_local(name) {
                Err(e) => Err(e),
                Ok(c2) => Ok(c2.emit2(OP_CLASS, index)),
            }
        } else {
            Ok(c1.emit2(OP_CLASS, index).emit2(OP_DEFINE_GLOBAL, index))
        },
    }
}

/// Emits the inheritance of the class `name` from `parent`: loads the
/// superclass, opens the scope in which it is the local `super`, loads the
/// class and copies the methods down.
#[verifier::opaque]
pub open spec fn inherit(c: CompilerView, name: Seq<char>, parent: &ExpressionNode) -> Result<
    CompilerView,
    CompileError,
> {
    match identifier(parent) {
        None => Err(CompileError::MalformedAst),
        Some(parent_name) => if parent_name == name {
            Err(CompileError::SelfInheritance)
        } else {
            match c.load(parent_name) {
                Err(e) => Err(e),
                Ok(c1) => match c1.begin_scope() {
                    Err(e) => Err(e),
                    Ok(c2) => match c2.add_local("super"@) {
                        Err(e) => Err(e),
                        Ok(c3) => match c3.load(name) {
                            Err(e) => Err(e),
                            Ok(c4) => Ok(c4.emit(OP_INHERIT)),
                        },
                    },
                },
            }
        },
    }
}

/// Binds a finished function to its name: a method is added to the class
/// below it on the stack, any other function is defined as a variable.
#[verifier::opaque]
pub open spec fn bind_function(
    c: CompilerView,
    function_type: FunctionType,
    name: Seq<char>,
) -> Result<
    CompilerView,
    CompileError,
> {
    match function_type {
        FunctionType::Method | FunctionType::Init => c.emit_text(OP_METHOD, name),
        _ => c.define(name),
    }
}

/// The instructions every function ends with: an initializer returns its
/// receiver, any other function `null`.
#[verifier::opaque]
pub open spec fn emit_return(c: CompilerView, function_type: FunctionType) -> CompilerView {
    match function_type {
        FunctionType::Init => c.emit2(OP_GET_LOCAL, 0).emit(OP_RETURN),
        _ => c.emit(OP_NULL).emit(OP_RETURN),
    }
}

/// Compiles a function in a frame of its own and leaves in the enclosing
/// function the code that creates and binds its closure.
#[verifier::opaque]
pub open spec fn compile_function(
    c: CompilerView,
    in_class: bool,
    function_type: FunctionType,
    name: &ExpressionNode,
    params: Seq<ExpressionNode>,
    body: &StatementNode,
) -> Result<CompilerView, CompileError>
    decreases body, 2int,
{
    match identifier(name) {
        None => Err(CompileError::MalformedAst),
        Some(function_name) => if params.len() > 255 {
            Err(CompileError::TooManyLocals)
        } else {
            match c.push_frame(function_name, function_type, params.len() as int).begin_scope() {
                Err(e) => Err(e),
                Ok(c1) => match add_params(c1, params, 0) {
                    Err(e) => Err(e),
                    Ok(c2) => match compile_stmt(c2, in_class, body) {
                        Err(e) => Err(e),
                        Ok(c3) => match emit_return(c3, function_type).end_scope().close_function() {
                            Err(e) => Err(e),
                            Ok(c4) => bind_function(c4, function_type, function_name),
                        },
                    },
                },
            }
        },
    }
}

/// Compiles the methods of a class body from position `from` on.
pub open spec fn compile_methods(c: CompilerView, stmts: Seq<StatementNode>, from: int) -> Result<
    CompilerView,
    CompileError,
>
    decreases stmts, stmts.len() - from,
{
    if from < 0 || from >= stmts.len() {
        Ok(c)
    } else {
        match &stmts[from] {
            StatementNode::Fun { name, params, body } => match identifier(name) {
                None => Err(CompileError::MalformedAst),
                Some(method_name) => match compile_function(
                    c,
                    true,
                    if method_name == "init"@ {
                        FunctionType::Init
                    } else {
                        FunctionType::Method
                    },
                    name,
                    params@,
                    body,
                ) {
                    Err(e) => Err(e),
                    Ok(c1) => compile_methods(c1, stmts, from + 1),
                },
            },
            _ => Err(CompileError::MalformedAst),
        }
    }
}

/// Compiles the statements of `stmts` from position `from` on.
pub open spec fn compile_stmts(
    c: CompilerView,
    in_class: bool,
    stmts: Seq<StatementNode>,
    from: int,
) -> Result<CompilerView, CompileError>
    decreases stmts, stmts.len() - from,
{
    if from < 0 || from >= stmts.len() {
        Ok(c)
    } else {
        match compile_stmt(c, in_class, &stmts[from]) {
            Err(e) => Err(e),
            Ok(c1) => compile_stmts(c1, in_class, stmts, from + 1),
        }
    }
}

/// Compiles a statement.
pub open spec fn compile_stmt(c: CompilerView, in_class: bool, s: &StatementNode) -> Result<
    CompilerView,
    CompileError,
>
    decreases s, 1int,
{
    match s {
        StatementNode::Class { .. } => stmt_class(c, in_class, s),
        StatementNode::For { .. } => stmt_for(c, in_class, s),
        StatementNode::Fun { name, params, body } => compile_function(
            c,
            in_class,
            FunctionType::Function,
            name,
            params@,
            body,
        ),
        StatementNode::If { .. } => stmt_if(c, in_class, s),
        StatementNode::While { .. } => stmt_while(c, in_class, s),
        _ => stmt_simple(c, in_class, s),
    }
}

/// A class declaration: the class is created and bound, its superclass, if
/// any, becomes the local `super` of a scope of its own, and each method is
/// compiled and added to the class.
#[verifier::opaque]
pub open spec fn stmt_class(c: CompilerView, in_class: bool, s: &StatementNode) -> Result<
    CompilerView,
    CompileError,
>
    decreases s, 0int,
{
    match s {
        StatementNode::Class { name, body, super_class } => match identifier(name) {
            None => Err(CompileError::MalformedAst),
            Some(class_name) => match declare_class(c, class_name) {
                Err(e) => Err(e),
                Ok(c1) => match (match super_class {
                    Some(parent) => inherit(c1, class_name, parent),
                    None => Ok(c1),
                }) {
                    Err(e) => Err(e),
                    Ok(c2) => match c2.load(class_name) {
                        Err(e) => Err(e),
                        Ok(c3) => match &**body {
                            StatementNode::Block { stmts } => match compile_methods(c3, stmts@, 0) {
                                Err(e) => Err(e),
                                Ok(c4) => Ok(
                                    if super_class.is_some() {
                                        c4.emit(OP_POP).end_scope()
                                    } else {
                                        c4.emit(OP_POP)
                                    },
                                ),
                            },
                            _ => Err(CompileError::MalformedAst),
                        },
                    },
                },
            },
        },
        _ => Ok(c),
    }
}

/// A loop over a range: a hidden counter, the range, the test that ends the
/// loop, the loop variable, the body, and the jump back.
#[verifier::opaque]
pub open spec fn stmt_for(c: CompilerView, in_class: bool, s: &StatementNode) -> Result<
    CompilerView,
    CompileError,
>
    decreases s, 0int,
{
    match s {
        StatementNode::For { name, range, consequence } => match c.begin_scope() {
            Err(e) => Err(e),
            Ok(c1) => match c1.emit(OP_CONSTANT0).add_local("__range_counter__"@) {
                Err(e) => Err(e),
                Ok(c2) => match compile_exp(
                    emit_slot(c2, OP_GET_LOCAL, "__range_counter__"@),
                    in_class,
                    range,
                ) {
                    Err(e) => Err(e),
                    Ok(c3) => {
                        let c4 = c3.emit_jump(OP_JUMP_IF_RANGE_END);
                        match identifier(name) {
                            None => Err(CompileError::MalformedAst),
                            Some(variable) => match emit_slot(
                                c4,
                                OP_COUNTUP,
                                "__range_counter__"@,
                            ).add_local(variable) {
                                Err(e) => Err(e),
                                Ok(c5) => match compile_stmt(c5, in_class, consequence) {
                                    Err(e) => Err(e),
                                    Ok(c6) => match c6.emit(OP_POP).emit_loop(c2.here()) {
                                        Err(e) => Err(e),
                                        Ok(c7) => match c7.patch_jump(c4.here() - 2) {
                                            Err(e) => Err(e),
                                            Ok(c8) => Ok(c8.end_scope()),
                                        },
                                    },
                                },
                            },
                        }
                    },
                },
            },
        },
        _ => Ok(c),
    }
}

/// A conditional: the test, a jump over the first branch, the first branch,
/// a jump over the second, the second branch if there is one.
#[verifier::opaque]
pub open spec fn stmt_if(c: CompilerView, in_class: bool, s: &StatementNode) -> Result<
    CompilerView,
    CompileError,
>
    decreases s, 0int,
{
    match s {
        StatementNode::If { condition, consequence, alternative } => match compile_exp(
            c,
            in_class,
            condition,
        ) {
            Err(e) => Err(e),
            Ok(c1) => {
                let c2 = c1.emit_jump(OP_JUMP_IF_FALSE);
                match compile_stmt(c2.emit(OP_POP), in_class, consequence) {
                    Err(e) => Err(e),
                    Ok(c3) => {
                        let c4 = c3.emit_jump(OP_JUMP);
                        match c4.patch_jump(c2.here() - 2) {
                            Err(e) => Err(e),
                            Ok(c5) => match (match alternative {
                                Some(otherwise) => compile_stmt(
                                    c5.emit(OP_POP),
                                    in_class,
                                    otherwise,
                                ),
                                None => Ok(c5.emit(OP_POP)),
                            }) {
                                Err(e) => Err(e),
                                Ok(c6) => c6.patch_jump(c4.here() - 2),
                            },
                        }
                    },
                }
            },
        },
        _ => Ok(c),
    }
}

/// A loop with a condition: the test, the jump out, the body, the jump back.
#[verifier::opaque]
pub open spec fn stmt_while(c: CompilerView, in_class: bool, s: &StatementNode) -> Result<
    CompilerView,
    CompileError,
>
    decreases s, 0int,
{
    match s {
        StatementNode::While { condition, consequence } => match compile_exp(
            c,
            in_class,
            condition,
        ) {
            Err(e) => Err(e),
            Ok(c1) => {
                let c2 = c1.emit_jump(OP_JUMP_IF_FALSE);
                match compile_stmt(c2.emit(OP_POP), in_class, consequence) {
                    Err(e) => Err(e),
                    Ok(c3) => match c3.emit_loop(c.here()) {
                        Err(e) => Err(e),
                        Ok(c4) => match c4.patch_jump(c2.here() - 2) {
                            Err(e) => Err(e),
                            Ok(c5) => Ok(c5.emit(OP_POP)),
                        },
                    },
                }
            },
        },
        _ => Ok(c),
    }
}

/// A return, a variable declaration, a block, a print or an expression
/// statement.
#[verifier::opaque]
pub open spec fn stmt_simple(c: CompilerView, in_class: bool, s: &StatementNode) -> Result<
    CompilerView,
    CompileError,
>
    decreases s, 0int,
{
    match s {
        StatementNode::Return { value } => match (match value {
            Some(e) => compile_exp(c, in_class, e),
            None => Ok(c.emit(OP_NULL)),
        }) {
            Err(e) => Err(e),
            Ok(c1) => Ok(c1.emit(OP_RETURN)),
        },
        StatementNode::Var { name, value } => match compile_exp(c, in_class, value) {
            Err(e) => Err(e),
            Ok(c1) => match identifier(name) {
                None => Err(CompileError::MalformedAst),
                Some(variable) => c1.define(variable),
            },
        },
        StatementNode::Block { stmts } => match c.begin_scope() {
            Err(e) => Err(e),
            Ok(c1) => match compile_stmts(c1, in_class, stmts@, 0) {
                Err(e) => Err(e),
                Ok(c2) => Ok(c2.end_scope()),
            },
        },
        StatementNode::Print { expression } => match compile_exp(c, in_class, expression) {
            Err(e) => Err(e),
            Ok(c1) => Ok(c1.emit(OP_PRINT)),
        },
        StatementNode::ExpStmt { expression } => match compile_exp(c, in_class, expression) {
            Err(e) => Err(e),
            Ok(c1) => Ok(c1.emit(OP_POP)),
        },
        _ => Ok(c),
    }
}

} // verus!
