//! Compilation of statements, functions and classes.
use vstd::prelude::*;
use super::ast::{ExpressionNode, Program, StatementNode};
use super::model::{
    add_params, bind_function, compile_exp, compile_function, compile_methods, compile_stmt,
    compile_stmts, declare_class, emit_return, emit_slot, inherit, lemma_shape, stmt_class,
    stmt_for, stmt_if, stmt_simple, stmt_while, CompileError, CompilerView,
};
use super::object::FunctionType;
use super::{compiles_to, finished, fresh_frame, text, ClassCompiler, Compiler, Script};
use crate::vm::chunk::{
    OP_CLASS, OP_CLOSURE, OP_CONSTANT0, OP_COUNTUP, OP_DEFINE_GLOBAL, OP_GET_LOCAL, OP_INHERIT,
    OP_JUMP, OP_JUMP_IF_FALSE, OP_JUMP_IF_RANGE_END, OP_METHOD, OP_NULL, OP_POP, OP_PRINT,
    OP_RETURN,
};
use crate::vm::value::Value;

verus! {

impl Compiler {
    /// Declares the parameters as locals, in order.
    pub(crate) fn add_params(&mut self, params: &Vec<ExpressionNode>) -> (r: Result<(), CompileError>)
        requires
            old(self).wf(),
        ensures
            final(self).wf(),
            final(self)@.shape() == old(self)@.shape(),
            match r {
                Ok(()) => add_params(old(self)@, params@, 0) == Ok::<_, CompileError>(final(self)@),
                Err(e) => add_params(old(self)@, params@, 0) == Err::<CompilerView, _>(e),
            },
    {
        let mut index: usize = 0;
        while index < params.len()
            invariant
                self.wf(),
                index <= params@.len(),
                self@.shape() == old(self)@.shape(),
                add_params(old(self)@, params@, 0) == add_params(self@, params@, index as int),
            decreases params@.len() - index,
        {
            match &params[index] {
                ExpressionNode::Identifer(name) => {
                    self.add_local(name.clone())?;
                },
                _ => {
                    return Err(CompileError::MalformedAst);
                },
            }
            index += 1;
        }
        Ok(())
    }

    /// Emits `op` with the slot of the innermost local called `name`, if
    /// there is one.
    pub(crate) fn emit_slot(&mut self, op: u8, name: &String)
        requires
            old(self).wf(),
        ensures
            final(self).wf(),
            final(self)@.shape() == old(self)@.shape(),
            final(self)@ == emit_slot(old(self)@, op, name@),
    {
        reveal(emit_slot);
        let top: usize = self.frames.len() - 1;
        match self.get_local(top, name) {
            Some(slot) => {
                self.emit_bytes(op, slot);
            },
            None => {},
        }
    }

    pub(crate) fn declare_class(&mut self, name: &String) -> (r: Result<(), CompileError>)
        requires
            old(self).wf(),
        ensures
            final(self).wf(),
            final(self)@.shape() == old(self)@.shape(),
            match r {
                Ok(()) => declare_class(old(self)@, name@) == Ok::<_, CompileError>(final(self)@),
                Err(e) => declare_class(old(self)@, name@) == Err::<CompilerView, _>(e),
            },
    {
        reveal(declare_class);
        let index: u8 = self.add_text(name.clone())?;
        if self.get_scope_depth() > 0 {
            self.add_local(name.clone())?;
            self.emit_bytes(OP_CLASS, index);
        } else {
            self.emit_bytes(OP_CLASS, index);
            self.emit_bytes(OP_DEFINE_GLOBAL, index);
        }
        Ok(())
    }

    pub(crate) fn inherit(&mut self, name: &String, parent: &ExpressionNode) -> (r: Result<(), CompileError>)
        requires
            old(self).wf(),
        ensures
            final(self).wf(),
            r is Ok ==> final(self)@.shape() == old(self)@.shape().update(
                old(self)@.frames.len() - 1,
                old(self)@.top().scope_depth + 1,
            ),
            match r {
                Ok(()) => inherit(old(self)@, name@, parent) == Ok::<_, CompileError>(final(self)@),
                Err(e) => inherit(old(self)@, name@, parent) == Err::<CompilerView, _>(e),
            },
    {
        reveal(inherit);
        match parent {
            ExpressionNode::Identifer(parent_name) => {
                if *parent_name == *name {
                    return Err(CompileError::SelfInheritance);
                }
                self.load(parent_name)?;
                proof {
                    lemma_shape(self@);
                    lemma_shape(old(self)@);
                }
                self.begin_scope()?;
                self.add_local(text("super"))?;
                self.load(name)?;
                self.emit_byte(OP_INHERIT);
                Ok(())
            },
            _ => Err(CompileError::MalformedAst),
        }
    }

    pub(crate) fn emit_return(&mut self, function_type: FunctionType)
        requires
            old(self).wf(),
        ensures
            final(self).wf(),
            final(self)@.shape() == old(self)@.shape(),
            final(self)@ == emit_return(old(self)@, function_type),
    {
        reveal(emit_return);
        match function_type {
            FunctionType::Init => {
                self.emit_bytes(OP_GET_LOCAL, 0);
            },
            _ => {
                self.emit_byte(OP_NULL);
            },
        }
        self.emit_byte(OP_RETURN);
    }

    pub(crate) fn bind_function(
        &mut self,
        function_type: FunctionType,
        name: &String,
    ) -> (r: Result<
        (),
        CompileError,
    >)
        requires
            old(self).wf(),
        ensures
            final(self).wf(),
            final(self)@.shape() == old(self)@.shape(),
            match r {
                Ok(()) => bind_function(old(self)@, function_type, name@) == Ok::<
                    _,
                    CompileError,
                >(final(self)@),
                Err(e) => bind_function(old(self)@, function_type, name@) == Err::<
                    CompilerView,
                    _,
                >(e),
            },
    {
        reveal(bind_function);
        match function_type {
            FunctionType::Method | FunctionType::Init => self.emit_text(OP_METHOD, name.clone()),
            _ => self.define(name.clone()),
        }
    }

    /// Files the finished innermost function and emits in the enclosing
    /// function the instruction that makes a closure of it.
    pub(crate) fn close_function(&mut self) -> (r: Result<(), CompileError>)
        requires
            old(self).wf(),
            old(self)@.frames.len() >= 2,
        ensures
            final(self).wf(),
            r is Ok ==> final(self)@.shape() == old(self)@.shape().drop_last(),
            match r {
                Ok(()) => old(self)@.close_function() == Ok::<_, CompileError>(final(self)@),
                Err(e) => old(self)@.close_function() == Err::<CompilerView, _>(e),
            },
    {
        reveal(CompilerView::close_function);
        let ghost done_view = self@.top();
        let ghost outer = CompilerView {
            frames: old(self)@.frames.drop_last(),
            functions: old(self)@.functions.push(done_view.function),
            ..old(self)@
        };
        if self.functions.len() >= usize::MAX {
            return Err(CompileError::TooManyFunctions);
        }
        let done = self.frames.pop();
        if done.is_none() {
            return Err(CompileError::MalformedAst);
        }
        let done = done.unwrap();
        assert(done@ == done_view);
        let handle: usize = self.functions.len();
        self.functions.push(done.function);
        assert(self@.frames =~= outer.frames);
        assert(self@.functions =~= outer.functions);
        assert(self@ == outer);
        assert(self.wf());
        self.emit_constant(OP_CLOSURE, Value::Function(handle))?;
        let ghost emitted = self@;
        let mut index: usize = 0;
        let upvalues = done.upvalues;
        assert(done_view.wf());
        while index < upvalues.len()
            invariant
                self.wf(),
                index <= upvalues@.len(),
                upvalues@ == done_view.upvalues,
                done_view.wf(),
                self@.shape() == emitted.shape(),
                emitted.emit_captures(upvalues@, 0) == self@.emit_captures(upvalues@, index as int),
            decreases upvalues@.len() - index,
        {
            let upvalue = upvalues[index];
            assert(upvalue.index < 256);
            self.emit_bytes(
                if upvalue.is_local {
                    1
                } else {
                    0
                },
                upvalue.index as u8,
            );
            index += 1;
        }
        Ok(())
    }

    /// Compiles a function in a frame of its own and leaves in the current
    /// function the code that creates and binds its closure.
    pub(crate) fn function(
        &mut self,
        class_compiler: &ClassCompiler,
        function_type: FunctionType,
        name: &ExpressionNode,
        params: &Vec<ExpressionNode>,
        body: &StatementNode,
    ) -> (r: Result<(), CompileError>)
        requires
            old(self).wf(),
        ensures
            final(self).wf(),
            r is Ok ==> final(self)@.shape() == old(self)@.shape(),
            match r {
                Ok(()) => compile_function(
                    old(self)@,
                    class_compiler.in_class(),
                    function_type,
                    name,
                    params@,
                    body,
                ) == Ok::<_, CompileError>(final(self)@),
                Err(e) => compile_function(
                    old(self)@,
                    class_compiler.in_class(),
                    function_type,
                    name,
                    params@,
                    body,
                ) == Err::<CompilerView, _>(e),
            },
        decreases body, 2int,
    {
        reveal(CompilerView::push_frame);
        reveal(compile_function);
        let function_name = match name {
            ExpressionNode::Identifer(function_name) => function_name,
            _ => {
                return Err(CompileError::MalformedAst);
            },
        };
        if params.len() > 255 {
            return Err(CompileError::TooManyLocals);
        }
        let frame = fresh_frame(function_name.clone(), function_type, params.len() as i32);
        self.frames.push(frame);
        assert(self@.frames =~= old(self)@.push_frame(
            function_name@,
            function_type,
            params@.len() as int,
        ).frames);
        assert(self@.shape() =~= old(self)@.shape().push(0));
        self.begin_scope()?;
        self.add_params(params)?;
        self.compile_stmt(class_compiler, body)?;
        self.emit_return(function_type);
        proof {
            lemma_shape(self@);
            lemma_shape(old(self)@);
        }
        self.end_scope();
        proof {
            lemma_shape(self@);
            assert(self@.shape().drop_last() =~= old(self)@.shape());
        }
        self.close_function()?;
        self.bind_function(function_type, function_name)
    }

    /// Compiles the methods of a class body, in order.
    pub(crate) fn compile_methods(
        &mut self,
        class_compiler: &ClassCompiler,
        stmts: &Vec<StatementNode>,
    ) -> (r:
        Result<(), CompileError>)
        requires
            old(self).wf(),
            class_compiler.in_class(),
        ensures
            final(self).wf(),
            r is Ok ==> final(self)@.shape() == old(self)@.shape(),
            match r {
                Ok(()) => compile_methods(old(self)@, stmts@, 0) == Ok::<_, CompileError>(
                    final(self)@,
                ),
                Err(e) => compile_methods(old(self)@, stmts@, 0) == Err::<CompilerView, _>(e),
            },
        decreases stmts@, 0int,
    {
        let mut index: usize = 0;
        while index < stmts.len()
            invariant
                self.wf(),
                class_compiler.in_class(),
                index <= stmts@.len(),
                self@.shape() == old(self)@.shape(),
                compile_methods(old(self)@, stmts@, 0) == compile_methods(
                    self@,
                    stmts@,
                    index as int,
                ),
            decreases stmts@.len() - index,
        {
            reveal(compile_function);
            match &stmts[index] {
                StatementNode::Fun { name, params, body } => {
                    let function_type = match name {
                        ExpressionNode::Identifer(method_name) => {
                            if *method_name == text("init") {
                                FunctionType::Init
                            } else {
                                FunctionType::Method
                            }
                        },
                        _ => {
                            return Err(CompileError::MalformedAst);
                        },
                    };
                    self.function(class_compiler, function_type, name, params, body)?;
                },
                _ => {
                    return Err(CompileError::MalformedAst);
                },
            }
            index += 1;
        }
        Ok(())
    }

    /// Compiles the statements of `stmts` in order.
    pub(crate) fn compile_stmts(
        &mut self,
        class_compiler: &ClassCompiler,
        stmts: &Vec<StatementNode>,
    ) -> (r:
        Result<(), CompileError>)
        requires
            old(self).wf(),
        ensures
            final(self).wf(),
            r is Ok ==> final(self)@.shape() == old(self)@.shape(),
            match r {
                Ok(()) => compile_stmts(old(self)@, class_compiler.in_class(), stmts@, 0) == Ok::<
                    _,
                    CompileError,
                >(final(self)@),
                Err(e) => compile_stmts(old(self)@, class_compiler.in_class(), stmts@, 0) == Err::<
                    CompilerView,
                    _,
                >(e),
            },
        decreases stmts@, 0int,
    {
        let mut index: usize = 0;
        while index < stmts.len()
            invariant
                self.wf(),
                index <= stmts@.len(),
                self@.shape() == old(self)@.shape(),
                compile_stmts(old(self)@, class_compiler.in_class(), stmts@, 0) == compile_stmts(
                    self@,
                    class_compiler.in_class(),
                    stmts@,
                    index as int,
                ),
            decreases stmts@.len() - index,
        {
            self.compile_stmt(class_compiler, &stmts[index])?;
            index += 1;
        }
        Ok(())
    }

    /// Compiles a class declaration.
    pub(crate) fn compile_class(
        &mut self,
        class_compiler: &ClassCompiler,
        stmt: &StatementNode,
    ) -> (r: Result<
        (),
        CompileError,
    >)
        requires
            old(self).wf(),
            stmt is Class,
        ensures
            final(self).wf(),
            r is Ok ==> final(self)@.shape() == old(self)@.shape(),
            match r {
                Ok(()) => compile_stmt(old(self)@, class_compiler.in_class(), stmt) == Ok::<
                    _,
                    CompileError,
                >(final(self)@),
                Err(e) => compile_stmt(old(self)@, class_compiler.in_class(), stmt) == Err::<
                    CompilerView,
                    _,
                >(e),
            },
        decreases stmt, 0int,
    {
        reveal(stmt_class);
        match stmt {
            StatementNode::Class { name, body, super_class } => {
                let class_name = match name {
                    ExpressionNode::Identifer(class_name) => class_name,
                    _ => {
                        return Err(CompileError::MalformedAst);
                    },
                };
                self.declare_class(class_name)?;
                let mut tracker = ClassCompiler::new();
                tracker.enclosing = Some(Box::new(class_compiler.duplicate()));
                match super_class {
                    Some(parent) => {
                        self.inherit(class_name, parent)?;
                        tracker.has_super_class = true;
                    },
                    None => {},
                }
                self.load(class_name)?;
                match &**body {
                    StatementNode::Block { stmts } => {
                        self.compile_methods(&tracker, stmts)?;
                    },
                    _ => {
                        return Err(CompileError::MalformedAst);
                    },
                }
                self.emit_byte(OP_POP);
                if tracker.has_super_class {
                    proof {
                    lemma_shape(self@);
                    lemma_shape(old(self)@);
                }
                self.end_scope();
                proof {
                    lemma_shape(self@);
                    assert(self@.shape() =~= old(self)@.shape());
                }
                }
                Ok(())
            },
            _ => Ok(()),
        }
    }

    /// Compiles a loop over a range.
    pub(crate) fn compile_for(
        &mut self,
        class_compiler: &ClassCompiler,
        stmt: &StatementNode,
    ) -> (r: Result<
        (),
        CompileError,
    >)
        requires
            old(self).wf(),
            stmt is For,
        ensures
            final(self).wf(),
            r is Ok ==> final(self)@.shape() == old(self)@.shape(),
            match r {
                Ok(()) => compile_stmt(old(self)@, class_compiler.in_class(), stmt) == Ok::<
                    _,
                    CompileError,
                >(final(self)@),
                Err(e) => compile_stmt(old(self)@, class_compiler.in_class(), stmt) == Err::<
                    CompilerView,
                    _,
                >(e),
            },
        decreases stmt, 0int,
    {
        reveal(stmt_for);
        match stmt {
            StatementNode::For { name, range, consequence } => {
                let counter = text("__range_counter__");
                self.begin_scope()?;
                self.emit_byte(OP_CONSTANT0);
                self.add_local(text("__range_counter__"))?;
                let start_loop: usize = self.here();
                self.emit_slot(OP_GET_LOCAL, &counter);
                self.compile_exp(class_compiler, range)?;
                let exit_jump: usize = self.emit_jump(OP_JUMP_IF_RANGE_END);
                let variable = match name {
                    ExpressionNode::Identifer(variable) => variable,
                    _ => {
                        return Err(CompileError::MalformedAst);
                    },
                };
                self.emit_slot(OP_COUNTUP, &counter);
                self.add_local(variable.clone())?;
                self.compile_stmt(class_compiler, consequence)?;
                self.emit_byte(OP_POP);
                self.emit_loop(start_loop)?;
                self.patch_jump(exit_jump)?;
                proof {
                    lemma_shape(self@);
                    lemma_shape(old(self)@);
                }
                self.end_scope();
                proof {
                    lemma_shape(self@);
                    assert(self@.shape() =~= old(self)@.shape());
                }
                Ok(())
            },
            _ => Ok(()),
        }
    }

    /// Compiles a conditional.
    pub(crate) fn compile_if(
        &mut self,
        class_compiler: &ClassCompiler,
        stmt: &StatementNode,
    ) -> (r: Result<
        (),
        CompileError,
    >)
        requires
            old(self).wf(),
            stmt is If,
        ensures
            final(self).wf(),
            r is Ok ==> final(self)@.shape() == old(self)@.shape(),
            match r {
                Ok(()) => compile_stmt(old(self)@, class_compiler.in_class(), stmt) == Ok::<
                    _,
                    CompileError,
                >(final(self)@),
                Err(e) => compile_stmt(old(self)@, class_compiler.in_class(), stmt) == Err::<
                    CompilerView,
                    _,
                >(e),
            },
        decreases stmt, 0int,
    {
        reveal(stmt_if);
        match stmt {
            StatementNode::If { condition, consequence, alternative } => {
                self.compile_exp(class_compiler, condition)?;
                let then_jump: usize = self.emit_jump(OP_JUMP_IF_FALSE);
                self.emit_byte(OP_POP);
                self.compile_stmt(class_compiler, consequence)?;
                let else_jump: usize = self.emit_jump(OP_JUMP);
                self.patch_jump(then_jump)?;
                self.emit_byte(OP_POP);
                match alternative {
                    Some(otherwise) => {
                        self.compile_stmt(class_compiler, otherwise)?;
                    },
                    None => {},
                }
                self.patch_jump(else_jump)
            },
            _ => Ok(()),
        }
    }

    /// Compiles a loop with a condition.
    pub(crate) fn compile_while(
        &mut self,
        class_compiler: &ClassCompiler,
        stmt: &StatementNode,
    ) -> (r: Result<
        (),
        CompileError,
    >)
        requires
            old(self).wf(),
            stmt is While,
        ensures
            final(self).wf(),
            r is Ok ==> final(self)@.shape() == old(self)@.shape(),
            match r {
                Ok(()) => compile_stmt(old(self)@, class_compiler.in_class(), stmt) == Ok::<
                    _,
                    CompileError,
                >(final(self)@),
                Err(e) => compile_stmt(old(self)@, class_compiler.in_class(), stmt) == Err::<
                    CompilerView,
                    _,
                >(e),
            },
        decreases stmt, 0int,
    {
        reveal(stmt_while);
        match stmt {
            StatementNode::While { condition, consequence } => {
                let start_loop: usize = self.here();
                self.compile_exp(class_compiler, condition)?;
                let exit_jump: usize = self.emit_jump(OP_JUMP_IF_FALSE);
                self.emit_byte(OP_POP);
                self.compile_stmt(class_compiler, consequence)?;
                self.emit_loop(start_loop)?;
                self.patch_jump(exit_jump)?;
                self.emit_byte(OP_POP);
                Ok(())
            },
            _ => Ok(()),
        }
    }

    /// Compiles a return, a variable declaration, a block, a print or an
    /// expression statement.
    pub(crate) fn compile_simple(
        &mut self,
        class_compiler: &ClassCompiler,
        stmt: &StatementNode,
    ) -> (r:
        Result<(), CompileError>)
        requires
            old(self).wf(),
            stmt is Return || stmt is Var || stmt is Block || stmt is Print || stmt is ExpStmt,
        ensures
            final(self).wf(),
            r is Ok ==> final(self)@.shape() == old(self)@.shape(),
            match r {
                Ok(()) => compile_stmt(old(self)@, class_compiler.in_class(), stmt) == Ok::<
                    _,
                    CompileError,
                >(final(self)@),
                Err(e) => compile_stmt(old(self)@, class_compiler.in_class(), stmt) == Err::<
                    CompilerView,
                    _,
                >(e),
            },
        decreases stmt, 0int,
    {
        reveal(stmt_simple);
        match stmt {
            StatementNode::Return { value } => {
                match value {
                    Some(expression) => {
                        self.compile_exp(class_compiler, expression)?;
                    },
                    None => {
                        self.emit_byte(OP_NULL);
                    },
                }
                self.emit_byte(OP_RETURN);
                Ok(())
            },
            StatementNode::Var { name, value } => {
                self.compile_exp(class_compiler, value)?;
                match name {
                    ExpressionNode::Identifer(variable) => self.define(variable.clone()),
                    _ => Err(CompileError::MalformedAst),
                }
            },
            StatementNode::Block { stmts } => {
                self.begin_scope()?;
                self.compile_stmts(class_compiler, stmts)?;
                proof {
                    lemma_shape(self@);
                    lemma_shape(old(self)@);
                }
                self.end_scope();
                proof {
                    lemma_shape(self@);
                    assert(self@.shape() =~= old(self)@.shape());
                }
                Ok(())
            },
            StatementNode::Print { expression } => {
                self.compile_exp(class_compiler, expression)?;
                self.emit_byte(OP_PRINT);
                Ok(())
            },
            StatementNode::ExpStmt { expression } => {
                self.compile_exp(class_compiler, expression)?;
                self.emit_byte(OP_POP);
                Ok(())
            },
            _ => Ok(()),
        }
    }

    /// Compiles a statement: emits code that leaves the stack as it found it,
    /// but for the locals that the statement declares.
    pub fn compile_stmt(&mut self, class_compiler: &ClassCompiler, stmt: &StatementNode) -> (r:
        Result<(), CompileError>)
        requires
            old(self).wf(),
        ensures
            final(self).wf(),
            r is Ok ==> final(self)@.shape() == old(self)@.shape(),
            match r {
                Ok(()) => compile_stmt(old(self)@, class_compiler.in_class(), stmt) == Ok::<
                    _,
                    CompileError,
                >(final(self)@),
                Err(e) => compile_stmt(old(self)@, class_compiler.in_class(), stmt) == Err::<
                    CompilerView,
                    _,
                >(e),
            },
        decreases stmt, 1int,
    {
        reveal(compile_function);
        match stmt {
            StatementNode::Class { .. } => self.compile_class(class_compiler, stmt),
            StatementNode::For { .. } => self.compile_for(class_compiler, stmt),
            StatementNode::Fun { name, params, body } => self.function(
                class_compiler,
                FunctionType::Function,
                name,
                params,
                body,
            ),
            StatementNode::If { .. } => self.compile_if(class_compiler, stmt),
            StatementNode::While { .. } => self.compile_while(class_compiler, stmt),
            _ => self.compile_simple(class_compiler, stmt),
        }
    }
}

impl Compiler {
    /// Ends the compilation: files the function of the current frame and
    /// hands out all functions with the string table.
    pub fn finish(self) -> (r: Script)
        requires
            self.wf(),
        ensures
            r@ == finished(self@),
    {
        let mut compiler = self;
        let main: usize = compiler.functions.len();
        let last = compiler.frames.pop();
        let mut functions = compiler.functions;
        match last {
            Some(frame) => {
                functions.push(frame.function);
            },
            None => {},
        }
        let script = Script { functions, strings: compiler.strings, main };
        assert(script@.functions =~= finished(self@).functions);
        script
    }
}

/// Compiles a whole script: its statements in order, as the top-level code of
/// the function `__main__`.
pub fn compile(program: &Program) -> (r: Result<Script, CompileError>)
    ensures
        compiles_to(program.stmts@, r),
{
    let mut compiler = Compiler::new(text("__main__"), FunctionType::Script, 0, None);
    let tracker = ClassCompiler::new();
    match compiler.compile_stmts(&tracker, &program.stmts) {
        Err(e) => Err(e),
        Ok(()) => Ok(compiler.finish()),
    }
}

} // verus!
