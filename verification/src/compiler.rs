//! The single-pass compiler: from the syntax tree to bytecode.
//!
//! A compilation is a stack of frames, one for each function under
//! construction, the innermost last.  Every function here is proved to do to
//! that state exactly what its counterpart in `model` says.
use vstd::prelude::*;
use self::ast::StatementNode;
use self::model::{
    compile_stmts, declared_in_scope, find_local, find_upvalue, lemma_shape, CompileError,
    CompilerView, FrameView, JUMP_MAX, LOCAL_MAX, UPVALUE_MAX,
};
use self::object::{FunctionObject, FunctionType, FunctionView};
use self::scope::{Local, LocalView, Upvalue};
use crate::vm::chunk::{
    OP_CLOSE_UPVALUE, OP_DEFINE_GLOBAL, OP_GET_GLOBAL, OP_GET_LOCAL, OP_GET_UPVALUE, OP_LOOP,
    OP_POP, OP_SET_GLOBAL, OP_SET_LOCAL, OP_SET_UPVALUE,
};
use crate::vm::value::Value;

pub mod ast;
pub mod expressions;
pub mod model;
pub mod object;
pub mod scope;
pub mod statements;

verus! {

/// Tracks the classes whose bodies enclose the code being compiled.
#[derive(Debug)]
pub struct ClassCompiler {
    pub enclosing: Option<Box<ClassCompiler>>,
    pub has_super_class: bool,
}

impl ClassCompiler {
    /// The tracker for code outside every class.
    pub fn new() -> (r: Self)
        ensures
            r.enclosing.is_none(),
            !r.has_super_class,
    {
        ClassCompiler { enclosing: None, has_super_class: false }
    }

    /// The code being compiled lies in the body of a class.
    pub open spec fn in_class(&self) -> bool {
        self.enclosing.is_some()
    }

    /// A copy of the tracker and of all that enclose it.
    pub fn duplicate(&self) -> (r: Self)
        ensures
            r == *self,
        decreases self,
    {
        match &self.enclosing {
            None => ClassCompiler { enclosing: None, has_super_class: self.has_super_class },
            Some(outer) => ClassCompiler {
                enclosing: Some(Box::new(outer.duplicate())),
                has_super_class: self.has_super_class,
            },
        }
    }
}

/// One function under construction.
#[derive(Debug)]
pub struct Frame {
    pub function: FunctionObject,
    pub function_type: FunctionType,
    pub locals: Vec<Local>,
    pub upvalues: Vec<Upvalue>,
    pub scope_depth: i32,
}

pub open spec fn locals_view(locals: Seq<Local>) -> Seq<LocalView> {
    Seq::new(locals.len(), |i: int| locals[i]@)
}

impl View for Frame {
    type V = FrameView;

    open spec fn view(&self) -> FrameView {
        FrameView {
            function: self.function@,
            function_type: self.function_type,
            locals: locals_view(self.locals@),
            upvalues: self.upvalues@,
            scope_depth: self.scope_depth as int,
        }
    }
}

pub open spec fn frames_view(frames: Seq<Frame>) -> Seq<FrameView> {
    Seq::new(frames.len(), |i: int| frames[i]@)
}

pub open spec fn functions_view(functions: Seq<FunctionObject>) -> Seq<FunctionView> {
    Seq::new(functions.len(), |i: int| functions[i]@)
}

pub open spec fn strings_view(strings: Seq<String>) -> Seq<Seq<char>> {
    Seq::new(strings.len(), |i: int| strings[i]@)
}

/// The state of a compilation: the frames of the functions under
/// construction, innermost last, the functions completed so far and the
/// strings that constants refer to.
#[derive(Debug)]
pub struct Compiler {
    pub frames: Vec<Frame>,
    pub functions: Vec<FunctionObject>,
    pub strings: Vec<String>,
}

impl View for Compiler {
    type V = CompilerView;

    open spec fn view(&self) -> CompilerView {
        CompilerView {
            frames: frames_view(self.frames@),
            functions: functions_view(self.functions@),
            strings: strings_view(self.strings@),
        }
    }
}

/// What a compilation hands to the machine: all functions, the string table
/// and the index of the function that holds the top-level code.
#[derive(Debug)]
pub struct Script {
    pub functions: Vec<FunctionObject>,
    pub strings: Vec<String>,
    pub main: usize,
}

/// What contracts say of a compiled script.
pub struct ScriptView {
    pub functions: Seq<FunctionView>,
    pub strings: Seq<Seq<char>>,
    pub main: int,
}

impl View for Script {
    type V = ScriptView;

    open spec fn view(&self) -> ScriptView {
        ScriptView {
            functions: functions_view(self.functions@),
            strings: strings_view(self.strings@),
            main: self.main as int,
        }
    }
}

/// The script that a finished compilation with one frame left amounts to.
pub open spec fn finished(c: CompilerView) -> ScriptView {
    ScriptView {
        functions: c.functions.push(c.top().function),
        strings: c.strings,
        main: c.functions.len() as int,
    }
}

/// What compiling the statements of a script gives.
pub open spec fn compiled(stmts: Seq<StatementNode>) -> Result<ScriptView, CompileError> {
    match compile_stmts(
        CompilerView::root("__main__"@, FunctionType::Script, 0),
        false,
        stmts,
        0,
    ) {
        Err(e) => Err(e),
        Ok(c) => Ok(finished(c)),
    }
}

/// `result` is what compiling the statements `stmts` gives: the script
/// with the view that `compiled` names, or the error that it names.
pub open spec fn compiles_to(stmts: Seq<StatementNode>, result: Result<Script, CompileError>) -> bool {
    match result {
        Ok(script) => compiled(stmts) == Ok::<_, CompileError>(script@),
        Err(e) => compiled(stmts) == Err::<ScriptView, _>(e),
    }
}

pub(crate) fn text(literal: &'static str) -> (r: String)
    ensures
        r@ == literal@,
{
    String::from_str(literal)
}

pub(crate) fn fresh_frame(name: String, function_type: FunctionType, arity: i32) -> (r: Frame)
    ensures
        r@ == FrameView::fresh(name@, function_type, arity as int),
        r@.wf(),
{
    let receiver = match function_type {
        FunctionType::Method | FunctionType::Init => text("this"),
        _ => String::new(),
    };
    let mut locals: Vec<Local> = Vec::new();
    locals.push(Local::new(receiver, 0));
    let frame = Frame {
        function: FunctionObject::new(name, arity),
        function_type,
        locals,
        upvalues: Vec::new(),
        scope_depth: 0,
    };
    assert(frame@.locals =~= FrameView::fresh(name@, function_type, arity as int).locals);
    frame
}

impl Compiler {
    /// The representation invariant: there is a current frame, and every
    /// frame is within its capacities.
    pub open spec fn wf(&self) -> bool {
        self@.wf()
    }

    /// Starts the compilation of a function: on its own, or inside the
    /// function that `enclosing` is compiling.
    pub fn new(
        name: String,
        function_type: FunctionType,
        arity: i32,
        enclosing: Option<Compiler>,
    ) -> (r: Self)
        requires
            enclosing matches Some(outer) ==> outer.wf(),
        ensures
            r.wf(),
            r@ == match enclosing {
                Some(outer) => outer@.push_frame(name@, function_type, arity as int),
                None => CompilerView::root(name@, function_type, arity as int),
            },
    {
        reveal(CompilerView::push_frame);
        let frame = fresh_frame(name, function_type, arity);
        match enclosing {
            Some(outer) => {
                let mut compiler = outer;
                compiler.frames.push(frame);
                assert(compiler@.frames =~= outer@.push_frame(
                    name@,
                    function_type,
                    arity as int,
                ).frames);
                compiler
            },
            None => {
                let mut frames: Vec<Frame> = Vec::new();
                frames.push(frame);
                let compiler = Compiler { frames, functions: Vec::new(), strings: Vec::new() };
                assert(compiler@.frames =~= CompilerView::root(
                    name@,
                    function_type,
                    arity as int,
                ).frames);
                assert(compiler@.functions =~= Seq::empty());
                assert(compiler@.strings =~= Seq::empty());
                compiler
            },
        }
    }

    pub(crate) fn emit_byte(&mut self, byte: u8)
        requires
            old(self).wf(),
        ensures
            final(self).wf(),
            final(self)@.shape() == old(self)@.shape(),
            final(self)@ == old(self)@.emit(byte),
    {
        reveal(CompilerView::emit);
        let top: usize = self.frames.len() - 1;
        self.frames[top].function.chunk.write(byte, 0);
        assert(self@.frames =~= old(self)@.emit(byte).frames);
    }

    pub(crate) fn emit_bytes(&mut self, first: u8, second: u8)
        requires
            old(self).wf(),
        ensures
            final(self).wf(),
            final(self)@.shape() == old(self)@.shape(),
            final(self)@ == old(self)@.emit2(first, second),
    {
        reveal(CompilerView::emit);
        self.emit_byte(first);
        self.emit_byte(second);
    }
}

impl Compiler {
    pub(crate) fn add_constant(&mut self, value: Value) -> (r: Result<u8, CompileError>)
        requires
            old(self).wf(),
        ensures
            final(self).wf(),
            final(self)@.shape() == old(self)@.shape(),
            match r {
                Ok(index) => old(self)@.add_constant(value) == Ok::<_, CompileError>(
                    (final(self)@, index),
                ),
                Err(e) => old(self)@.add_constant(value) == Err::<(CompilerView, u8), _>(e)
                    && final(self)@ == old(self)@,
            },
    {
        reveal(CompilerView::add_constant);
        let top: usize = self.frames.len() - 1;
        if self.frames[top].function.chunk.get_constant_len() >= 256 {
            return Err(CompileError::TooManyConstants);
        }
        let index: u8 = self.frames[top].function.chunk.add_constant(value);
        assert(self@.frames =~= old(self)@.set_top(
            old(self)@.top().push_constant(value),
        ).frames);
        Ok(index)
    }

    pub(crate) fn add_text(&mut self, text: String) -> (r: Result<u8, CompileError>)
        requires
            old(self).wf(),
        ensures
            final(self).wf(),
            final(self)@.shape() == old(self)@.shape(),
            match r {
                Ok(index) => old(self)@.add_text(text@) == Ok::<_, CompileError>(
                    (final(self)@, index),
                ),
                Err(e) => old(self)@.add_text(text@) == Err::<(CompilerView, u8), _>(e) && final(self)@
                    == old(self)@,
            },
    {
        reveal(CompilerView::add_text);
        reveal(CompilerView::add_constant);
        let top: usize = self.frames.len() - 1;
        if self.frames[top].function.chunk.get_constant_len() >= 256 {
            return Err(CompileError::TooManyConstants);
        }
        let handle: usize = self.strings.len();
        self.strings.push(text);
        assert(self@.strings =~= old(self)@.strings.push(text@));
        assert(self@ == (CompilerView { strings: old(self)@.strings.push(text@), ..old(self)@ }));
        self.add_constant(Value::String(handle))
    }

    pub(crate) fn emit_constant(&mut self, op: u8, value: Value) -> (r: Result<(), CompileError>)
        requires
            old(self).wf(),
        ensures
            final(self).wf(),
            final(self)@.shape() == old(self)@.shape(),
            match r {
                Ok(()) => old(self)@.emit_constant(op, value) == Ok::<_, CompileError>(
                    final(self)@,
                ),
                Err(e) => old(self)@.emit_constant(op, value) == Err::<CompilerView, _>(e)
                    && final(self)@ == old(self)@,
            },
    {
        reveal(CompilerView::emit);
        let index: u8 = self.add_constant(value)?;
        self.emit_bytes(op, index);
        Ok(())
    }

    pub(crate) fn emit_text(&mut self, op: u8, text: String) -> (r: Result<(), CompileError>)
        requires
            old(self).wf(),
        ensures
            final(self).wf(),
            final(self)@.shape() == old(self)@.shape(),
            match r {
                Ok(()) => old(self)@.emit_text(op, text@) == Ok::<_, CompileError>(final(self)@),
                Err(e) => old(self)@.emit_text(op, text@) == Err::<CompilerView, _>(e) && final(self)@
                    == old(self)@,
            },
    {
        reveal(CompilerView::emit);
        let index: u8 = self.add_text(text)?;
        self.emit_bytes(op, index);
        Ok(())
    }

    /// The slot of the innermost local of frame `level` called `name`.
    pub(crate) fn get_local(&self, level: usize, name: &String) -> (r: Option<u8>)
        requires
            self.wf(),
            level < self.frames@.len(),
        ensures
            match r {
                Some(slot) => find_local(
                    self@.frames[level as int].locals,
                    name@,
                    self@.frames[level as int].locals.len() as int,
                ) == Some(slot as int),
                None => find_local(
                    self@.frames[level as int].locals,
                    name@,
                    self@.frames[level as int].locals.len() as int,
                ).is_none(),
            },
            r matches Some(slot) ==> slot < self@.frames[level as int].locals.len(),
    {
        let ghost locals = self@.frames[level as int].locals;
        let mut index: usize = self.frames[level].locals.len();
        while index > 0
            invariant
                self.wf(),
                level < self.frames@.len(),
                locals == self@.frames[level as int].locals,
                index <= self.frames@[level as int].locals@.len(),
                locals.len() == self.frames@[level as int].locals@.len(),
                find_local(locals, name@, locals.len() as int) == find_local(
                    locals,
                    name@,
                    index as int,
                ),
            decreases index,
        {
            index -= 1;
            if self.frames[level].locals[index].name == *name {
                assert(locals[index as int].name == name@);
                return Some(index as u8);
            }
            assert(locals[index as int].name != name@);
        }
        None
    }

    /// Registers in frame `level` a capture of `index`.
    pub(crate) fn add_upvalue(&mut self, level: usize, index: usize, is_local: bool) -> (r: Result<
        Option<u8>,
        CompileError,
    >)
        requires
            old(self).wf(),
            level < old(self).frames@.len(),
            index < 256,
        ensures
            final(self).wf(),
            final(self)@.shape() == old(self)@.shape(),
            match r {
                Ok(found) => old(self)@.add_upvalue(level as int, index as int, is_local) == Ok::<
                    _,
                    CompileError,
                >((final(self)@, found)),
                Err(e) => old(self)@.add_upvalue(level as int, index as int, is_local) == Err::<
                    (CompilerView, Option<u8>),
                    _,
                >(e) && final(self)@ == old(self)@,
            },
    {
        reveal(CompilerView::add_upvalue);
        let target = Upvalue::new(index, is_local);
        let count: usize = self.frames[level].upvalues.len();
        assert(self@.frames[level as int].wf());
        let mut position: usize = 0;
        while position < count
            invariant
                self.wf(),
                *self == *old(self),
                level < self.frames@.len(),
                count == self.frames@[level as int].upvalues@.len(),
                count <= UPVALUE_MAX,
                position <= count,
                target == (Upvalue { index, is_local }),
                find_upvalue(self.frames@[level as int].upvalues@, target, 0) == find_upvalue(
                    self.frames@[level as int].upvalues@,
                    target,
                    position as int,
                ),
            decreases count - position,
        {
            reveal(CompilerView::add_upvalue);
            let upvalue = self.frames[level].upvalues[position];
            if upvalue.index == index && upvalue.is_local == is_local {
                assert(upvalue == target);
                assert(self@.frames[level as int].upvalues == self.frames@[level as int].upvalues@);
                return Ok(Some(position as u8));
            }
            assert(self.frames@[level as int].upvalues@[position as int] != target);
            position += 1;
        }
        assert(self@.frames[level as int].upvalues == self.frames@[level as int].upvalues@);
        if count >= UPVALUE_MAX {
            return Err(CompileError::TooManyUpvalues);
        }
        self.frames[level].upvalues.push(target);
        self.frames[level].function.upvalue_count = self.frames[level].function.upvalue_count + 1;
        assert(self@.frames =~= old(self)@.set_frame(
            level as int,
            old(self)@.frames[level as int].push_upvalue(target),
        ).frames);
        Ok(Some(count as u8))
    }

    /// Resolves `name` as an upvalue of frame `level`.
    pub(crate) fn get_upvalue(&mut self, level: usize, name: &String) -> (r: Result<
        Option<u8>,
        CompileError,
    >)
        requires
            old(self).wf(),
            level < old(self).frames@.len(),
        ensures
            final(self).wf(),
            final(self)@.shape() == old(self)@.shape(),
            match r {
                Ok(found) => old(self)@.resolve_upvalue(level as int, name@) == Ok::<
                    _,
                    CompileError,
                >((final(self)@, found)),
                Err(e) => old(self)@.resolve_upvalue(level as int, name@) == Err::<
                    (CompilerView, Option<u8>),
                    _,
                >(e),
            },
        decreases level,
    {
        reveal(CompilerView::resolve_upvalue);
        if level == 0 {
            return Ok(None);
        }
        match self.get_local(level - 1, name) {
            Some(slot) => {
                self.frames[level - 1].locals[slot as usize].is_captured = true;
                assert(self@.frames =~= old(self)@.set_frame(
                    level - 1,
                    old(self)@.frames[level - 1].capture(slot as int),
                ).frames) by {
                    assert(self@.frames[level - 1].locals =~= old(self)@.frames[level
                        - 1].capture(slot as int).locals);
                }
                self.add_upvalue(level, slot as usize, true)
            },
            None => {
                match self.get_upvalue(level - 1, name)? {
                    Some(index) => {
                        proof {
                            lemma_shape(self@);
                            lemma_shape(old(self)@);
                        }
                        assert(index < 256);
                        self.add_upvalue(level, index as usize, false)
                    },
                    None => Ok(None),
                }
            },
        }
    }

    /// Emits the access to the variable `name`.
    pub(crate) fn named_variable(
        &mut self,
        name: &String,
        local_op: u8,
        upvalue_op: u8,
        global_op: u8,
    ) -> (r:
        Result<(), CompileError>)
        requires
            old(self).wf(),
        ensures
            final(self).wf(),
            final(self)@.shape() == old(self)@.shape(),
            match r {
                Ok(()) => old(self)@.named_variable(name@, local_op, upvalue_op, global_op) == Ok::<
                    _,
                    CompileError,
                >(final(self)@),
                Err(e) => old(self)@.named_variable(name@, local_op, upvalue_op, global_op)
                    == Err::<CompilerView, _>(e),
            },
    {
        reveal(CompilerView::named_variable);
        let top: usize = self.frames.len() - 1;
        match self.get_local(top, name) {
            Some(slot) => {
                self.emit_bytes(local_op, slot);
                Ok(())
            },
            None => match self.get_upvalue(top, name)? {
                Some(index) => {
                    self.emit_bytes(upvalue_op, index);
                    Ok(())
                },
                None => self.emit_text(global_op, name.clone()),
            },
        }
    }

    pub(crate) fn load(&mut self, name: &String) -> (r: Result<(), CompileError>)
        requires
            old(self).wf(),
        ensures
            final(self).wf(),
            final(self)@.shape() == old(self)@.shape(),
            match r {
                Ok(()) => old(self)@.load(name@) == Ok::<_, CompileError>(final(self)@),
                Err(e) => old(self)@.load(name@) == Err::<CompilerView, _>(e),
            },
    {
        self.named_variable(name, OP_GET_LOCAL, OP_GET_UPVALUE, OP_GET_GLOBAL)
    }

    pub(crate) fn store(&mut self, name: &String) -> (r: Result<(), CompileError>)
        requires
            old(self).wf(),
        ensures
            final(self).wf(),
            final(self)@.shape() == old(self)@.shape(),
            match r {
                Ok(()) => old(self)@.store(name@) == Ok::<_, CompileError>(final(self)@),
                Err(e) => old(self)@.store(name@) == Err::<CompilerView, _>(e),
            },
    {
        self.named_variable(name, OP_SET_LOCAL, OP_SET_UPVALUE, OP_SET_GLOBAL)
    }
}

impl Compiler {
    pub(crate) fn get_scope_depth(&self) -> (r: i32)
        requires
            self.wf(),
        ensures
            r == self@.top().scope_depth,
    {
        self.frames[self.frames.len() - 1].scope_depth
    }

    pub(crate) fn begin_scope(&mut self) -> (r: Result<(), CompileError>)
        requires
            old(self).wf(),
        ensures
            final(self).wf(),
            r is Ok ==> final(self)@.shape() == old(self)@.shape().update(
                old(self)@.frames.len() - 1,
                old(self)@.top().scope_depth + 1,
            ),
            r is Err ==> final(self)@ == old(self)@,
            match r {
                Ok(()) => old(self)@.begin_scope() == Ok::<_, CompileError>(final(self)@),
                Err(e) => old(self)@.begin_scope() == Err::<CompilerView, _>(e) && final(self)@
                    == old(self)@,
            },
    {
        reveal(CompilerView::begin_scope);
        let top: usize = self.frames.len() - 1;
        if self.frames[top].scope_depth >= i32::MAX {
            return Err(CompileError::TooManyScopes);
        }
        self.frames[top].scope_depth = self.frames[top].scope_depth + 1;
        assert(self@.frames =~= old(self)@.begin_scope()->Ok_0.frames);
        Ok(())
    }

    /// Leaves the current scope and discards its locals.
    pub(crate) fn end_scope(&mut self)
        requires
            old(self).wf(),
            old(self)@.top().scope_depth >= 1,
        ensures
            final(self).wf(),
            final(self)@.shape() == old(self)@.shape().update(
                old(self)@.frames.len() - 1,
                old(self)@.top().scope_depth - 1,
            ),
            final(self)@ == old(self)@.end_scope(),
    {
        reveal(CompilerView::end_scope);
        reveal(CompilerView::emit);
        let top: usize = self.frames.len() - 1;
        self.frames[top].scope_depth = self.frames[top].scope_depth - 1;
        let ghost start = self@.top();
        assert(start == (FrameView {
            scope_depth: old(self)@.top().scope_depth - 1,
            ..old(self)@.top()
        })) by {
            assert(start.locals =~= old(self)@.top().locals);
        }
        assert(self@.frames =~= old(self)@.set_top(start).frames);
        loop
            invariant
                self.wf(),
                old(self).wf(),
                top == self.frames@.len() - 1,
                self@ == old(self)@.set_top(self@.top()),
                self@.top().scope_depth == old(self)@.top().scope_depth - 1,
                self@.top().discard_locals() == start.discard_locals(),
            ensures
                self@.top() == start.discard_locals(),
            decreases self@.top().locals.len(),
        {
            reveal(CompilerView::emit);
            let count: usize = self.frames[top].locals.len();
            if count == 0 {
                break ;
            }
            if self.frames[top].locals[count - 1].depth <= self.frames[top].scope_depth {
                break ;
            }
            let captured: bool = self.frames[top].locals[count - 1].is_captured;
            let ghost before = self@;
            if captured {
                self.emit_byte(OP_CLOSE_UPVALUE);
            } else {
                self.emit_byte(OP_POP);
            }
            let ghost emitted = self@;
            assert(emitted.frames.len() == self.frames@.len());
            assert(emitted.top() == self.frames@[top as int]@);
            let _ = self.frames[top].locals.pop();
            proof {
                let op = if captured {
                    OP_CLOSE_UPVALUE
                } else {
                    OP_POP
                };
                let next = FrameView {
                    locals: before.top().locals.drop_last(),
                    ..before.top().emit(op)
                };
                assert(emitted.top() == before.top().emit(op));
                assert(self@.top() == self.frames@[top as int]@);
                assert(self@.top().locals =~= next.locals);
                assert(self@.top() == next);
                assert forall|i: int| 0 <= i < self@.frames.len() implies self@.frames[i] == old(
                    self,
                )@.set_top(self@.top()).frames[i] by {
                    assert(old(self)@.frames.len() == before.frames.len());
                    if i != top {
                        assert(self@.frames[i] == emitted.frames[i]);
                        assert(emitted.frames[i] == before.frames[i]);
                        assert(before.frames[i] == old(self)@.frames[i]);
                    }
                }
                assert(self@.frames =~= old(self)@.set_top(self@.top()).frames);
                assert(emitted.wf());
                assert(emitted.top().wf());
                assert(next.wf());
                assert forall|i: int| 0 <= i < self@.frames.len() implies (
                #[trigger] self@.frames[i]).wf() by {
                    if i != top {
                        assert(emitted.frames[i].wf());
                    }
                }
            }
        }
        assert(self@.frames =~= old(self)@.end_scope().frames);
    }

    /// Declares a local in the current scope.
    pub(crate) fn add_local(&mut self, name: String) -> (r: Result<(), CompileError>)
        requires
            old(self).wf(),
        ensures
            final(self).wf(),
            final(self)@.shape() == old(self)@.shape(),
            match r {
                Ok(()) => old(self)@.add_local(name@) == Ok::<_, CompileError>(final(self)@),
                Err(e) => old(self)@.add_local(name@) == Err::<CompilerView, _>(e) && final(self)@
                    == old(self)@,
            },
    {
        reveal(CompilerView::add_local);
        let top: usize = self.frames.len() - 1;
        let count: usize = self.frames[top].locals.len();
        if count >= LOCAL_MAX {
            return Err(CompileError::TooManyLocals);
        }
        let depth: i32 = self.frames[top].scope_depth;
        let ghost locals = self@.top().locals;
        let mut index: usize = count;
        let mut scanning: bool = true;
        while scanning && index > 0
            invariant
                self.wf(),
                *self == *old(self),
                top == self.frames@.len() - 1,
                locals == self@.top().locals,
                depth == self@.top().scope_depth,
                count == locals.len(),
                count < LOCAL_MAX,
                index <= count,
                declared_in_scope(locals, name@, depth as int, count as int) == (scanning
                    && declared_in_scope(locals, name@, depth as int, index as int)),
            decreases
                    index + if scanning {
                        1int
                    } else {
                        0int
                    },
        {
            reveal(CompilerView::add_local);
            let local_depth: i32 = self.frames[top].locals[index - 1].depth;
            assert(locals[index - 1].depth == local_depth);
            if local_depth != -1 && local_depth < depth {
                scanning = false;
            } else if self.frames[top].locals[index - 1].name == name {
                assert(locals[index - 1].name == name@);
                assert(declared_in_scope(locals, name@, depth as int, index as int));
                assert(old(self)@.top().locals.len() < LOCAL_MAX);
                return Err(CompileError::DuplicateLocal);
            } else {
                assert(locals[index - 1].name != name@);
                index -= 1;
            }
        }
        self.frames[top].locals.push(Local::new(name, depth));
        assert(self@.frames =~= old(self)@.set_top(old(self)@.top().push_local(name@)).frames) by {
            assert(self@.top().locals =~= old(self)@.top().push_local(name@).locals);
        }
        Ok(())
    }

    /// Binds the value on top of the stack to `name`.
    pub(crate) fn define(&mut self, name: String) -> (r: Result<(), CompileError>)
        requires
            old(self).wf(),
        ensures
            final(self).wf(),
            final(self)@.shape() == old(self)@.shape(),
            match r {
                Ok(()) => old(self)@.define(name@) == Ok::<_, CompileError>(final(self)@),
                Err(e) => old(self)@.define(name@) == Err::<CompilerView, _>(e) && final(self)@
                    == old(self)@,
            },
    {
        reveal(CompilerView::define);
        if self.get_scope_depth() > 0 {
            self.add_local(name)
        } else {
            self.emit_text(OP_DEFINE_GLOBAL, name)
        }
    }

    pub(crate) fn here(&self) -> (r: usize)
        requires
            self.wf(),
        ensures
            r == self@.here(),
    {
        self.frames[self.frames.len() - 1].function.chunk.get_instruction_len()
    }

    /// Emits a jump with a placeholder distance and returns the site to patch.
    pub(crate) fn emit_jump(&mut self, op: u8) -> (r: usize)
        requires
            old(self).wf(),
        ensures
            final(self).wf(),
            final(self)@.shape() == old(self)@.shape(),
            final(self)@ == old(self)@.emit_jump(op),
            r == final(self)@.here() - 2,
    {
        reveal(CompilerView::emit_jump);
        reveal(CompilerView::emit);
        self.emit_byte(op);
        self.emit_bytes(0xff, 0xff);
        self.here() - 2
    }

    /// Makes the jump whose distance lies at `site` land at the end of the code.
    pub(crate) fn patch_jump(&mut self, site: usize) -> (r: Result<(), CompileError>)
        requires
            old(self).wf(),
        ensures
            final(self).wf(),
            final(self)@.shape() == old(self)@.shape(),
            match r {
                Ok(()) => old(self)@.patch_jump(site as int) == Ok::<_, CompileError>(final(self)@),
                Err(e) => old(self)@.patch_jump(site as int) == Err::<CompilerView, _>(e)
                    && final(self)@ == old(self)@,
            },
    {
        reveal(CompilerView::patch_jump);
        let top: usize = self.frames.len() - 1;
        let end: usize = self.here();
        if end < 2 || site > end - 2 {
            return Err(CompileError::MissingInstruction);
        }
        let distance: usize = end - site - 2;
        if distance > JUMP_MAX {
            return Err(CompileError::JumpTooFar);
        }
        let high: u8 = (distance / 256) as u8;
        let low: u8 = (distance % 256) as u8;
        match self.frames[top].function.chunk.get_instruction_mut(site) {
            Some(byte) => {
                *byte = high;
            },
            None => {},
        }
        match self.frames[top].function.chunk.get_instruction_mut(site + 1) {
            Some(byte) => {
                *byte = low;
            },
            None => {},
        }
        assert(self@.frames =~= old(self)@.patch_jump(site as int)->Ok_0.frames);
        Ok(())
    }

    /// Emits a jump back to `start`.
    pub(crate) fn emit_loop(&mut self, start: usize) -> (r: Result<(), CompileError>)
        requires
            old(self).wf(),
        ensures
            final(self).wf(),
            final(self)@.shape() == old(self)@.shape(),
            match r {
                Ok(()) => old(self)@.emit_loop(start as int) == Ok::<_, CompileError>(final(self)@),
                Err(e) => old(self)@.emit_loop(start as int) == Err::<CompilerView, _>(e)
                    && final(self)@ == old(self)@,
            },
    {
        reveal(CompilerView::emit_loop);
        reveal(CompilerView::emit);
        let end: usize = self.here();
        if start > end {
            return Err(CompileError::MissingInstruction);
        }
        if end - start > JUMP_MAX - 3 {
            return Err(CompileError::JumpTooFar);
        }
        let distance: usize = end - start + 3;
        self.emit_byte(OP_LOOP);
        self.emit_byte((distance / 256) as u8);
        self.emit_byte((distance % 256) as u8);
        Ok(())
    }
}

} // verus!
