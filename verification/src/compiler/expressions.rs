//! Compilation of expressions.
use vstd::prelude::*;
use super::ast::ExpressionNode;
use super::model::{
    compile_exp, compile_exps, emit_infix, emit_prefix, exp_assign, exp_atom, exp_invoke,
    exp_logical, exp_operation, exp_property, exp_sequence, exp_super_invoke, CompileError,
    CompilerView,
};
use super::{text, ClassCompiler, Compiler};
use crate::vm::chunk::{
    OP_ADD, OP_ARRAY, OP_CALL, OP_CONSTANT, OP_DIVIDE, OP_EQUAL, OP_FALSE, OP_GET_PROP,
    OP_GET_SUPER, OP_GREATER, OP_INDEX_CALL, OP_INDEX_SET, OP_INVOKE, OP_JUMP, OP_JUMP_IF_FALSE,
    OP_LESS, OP_MULTIPLY, OP_NEGATIVE, OP_NOT, OP_NULL, OP_POP, OP_POW, OP_RANGE, OP_REM,
    OP_SET_PROP, OP_SUBTRACT, OP_SUPER_INVOKE, OP_TRUE,
};
use crate::vm::value::Value;

verus! {

impl Compiler {
    pub(crate) fn emit_infix(&mut self, ope: &String)
        requires
            old(self).wf(),
        ensures
            final(self).wf(),
            final(self)@.shape() == old(self)@.shape(),
            final(self)@ == emit_infix(old(self)@, ope@),
    {
        reveal(emit_infix);
        if *ope == text("+") {
            self.emit_byte(OP_ADD);
        } else if *ope == text("-") {
            self.emit_byte(OP_SUBTRACT);
        } else if *ope == text("*") {
            self.emit_byte(OP_MULTIPLY);
        } else if *ope == text("/") {
            self.emit_byte(OP_DIVIDE);
        } else if *ope == text("^") {
            self.emit_byte(OP_POW);
        } else if *ope == text("%") {
            self.emit_byte(OP_REM);
        } else if *ope == text("!=") {
            self.emit_byte(OP_EQUAL);
            self.emit_byte(OP_NOT);
        } else if *ope == text("==") {
            self.emit_byte(OP_EQUAL);
        } else if *ope == text(">") {
            self.emit_byte(OP_GREATER);
        } else if *ope == text(">=") {
            self.emit_byte(OP_LESS);
            self.emit_byte(OP_NOT);
        } else if *ope == text("<") {
            self.emit_byte(OP_LESS);
        } else if *ope == text("<=") {
            self.emit_byte(OP_GREATER);
            self.emit_byte(OP_NOT);
        }
    }

    pub(crate) fn emit_prefix(&mut self, ope: &String)
        requires
            old(self).wf(),
        ensures
            final(self).wf(),
            final(self)@.shape() == old(self)@.shape(),
            final(self)@ == emit_prefix(old(self)@, ope@),
    {
        reveal(emit_prefix);
        if *ope == text("-") {
            self.emit_byte(OP_NEGATIVE);
        } else if *ope == text("!") {
            self.emit_byte(OP_NOT);
        }
    }

    /// Compiles the expressions of `items` in order.
    pub(crate) fn compile_exps(
        &mut self,
        class_compiler: &ClassCompiler,
        items: &Vec<ExpressionNode>,
    ) -> (r:
        Result<(), CompileError>)
        requires
            old(self).wf(),
        ensures
            final(self).wf(),
            r is Ok ==> final(self)@.shape() == old(self)@.shape(),
            match r {
                Ok(()) => compile_exps(old(self)@, class_compiler.in_class(), items@, 0) == Ok::<
                    _,
                    CompileError,
                >(final(self)@),
                Err(e) => compile_exps(old(self)@, class_compiler.in_class(), items@, 0) == Err::<
                    CompilerView,
                    _,
                >(e),
            },
        decreases items@, 2int,
    {
        let mut index: usize = 0;
        while index < items.len()
            invariant
                self.wf(),
                index <= items@.len(),
                self@.shape() == old(self)@.shape(),
                compile_exps(old(self)@, class_compiler.in_class(), items@, 0) == compile_exps(
                    self@,
                    class_compiler.in_class(),
                    items@,
                    index as int,
                ),
            decreases items@.len() - index,
        {
            self.compile_exp(class_compiler, &items[index])?;
            index += 1;
        }
        Ok(())
    }

    /// Compiles a range, a unary or a binary operation, or an index read.
    pub(crate) fn compile_operation(
        &mut self,
        class_compiler: &ClassCompiler,
        expression: &ExpressionNode,
    ) -> (r:
        Result<(), CompileError>)
        requires
            old(self).wf(),
            expression is RangeLiteral || expression is Prefix || expression is Infix || expression is IndexCall,
        ensures
            final(self).wf(),
            r is Ok ==> final(self)@.shape() == old(self)@.shape(),
            match r {
                Ok(()) => compile_exp(old(self)@, class_compiler.in_class(), expression) == Ok::<
                    _,
                    CompileError,
                >(final(self)@),
                Err(e) => compile_exp(old(self)@, class_compiler.in_class(), expression) == Err::<
                    CompilerView,
                    _,
                >(e),
            },
        decreases expression, 0int,
    {
        reveal(exp_operation);
        match expression {
            ExpressionNode::RangeLiteral { start, end } => {
                self.compile_exp(class_compiler, start)?;
                self.compile_exp(class_compiler, end)?;
                self.emit_byte(OP_RANGE);
                Ok(())
            },
            ExpressionNode::Prefix { ope, right } => {
                self.compile_exp(class_compiler, right)?;
                self.emit_prefix(ope);
                Ok(())
            },
            ExpressionNode::Infix { ope, left, right } => {
                self.compile_exp(class_compiler, left)?;
                self.compile_exp(class_compiler, right)?;
                self.emit_infix(ope);
                Ok(())
            },
            ExpressionNode::IndexCall { array, index } => {
                self.compile_exp(class_compiler, array)?;
                self.compile_exp(class_compiler, index)?;
                self.emit_byte(OP_INDEX_CALL);
                Ok(())
            },
            _ => Ok(()),
        }
    }

    /// Compiles an array literal or a call: the operands in order, then the instruction that takes them.
    pub(crate) fn compile_sequence(
        &mut self,
        class_compiler: &ClassCompiler,
        expression: &ExpressionNode,
    ) -> (r:
        Result<(), CompileError>)
        requires
            old(self).wf(),
            expression is ArrayLiteral || expression is FunCall,
        ensures
            final(self).wf(),
            r is Ok ==> final(self)@.shape() == old(self)@.shape(),
            match r {
                Ok(()) => compile_exp(old(self)@, class_compiler.in_class(), expression) == Ok::<
                    _,
                    CompileError,
                >(final(self)@),
                Err(e) => compile_exp(old(self)@, class_compiler.in_class(), expression) == Err::<
                    CompilerView,
                    _,
                >(e),
            },
        decreases expression, 0int,
    {
        reveal(exp_sequence);
        match expression {
            ExpressionNode::ArrayLiteral(items) => {
                if items.len() > 255 {
                    return Err(CompileError::TooManyOperands);
                }
                self.compile_exps(class_compiler, items)?;
                self.emit_bytes(OP_ARRAY, items.len() as u8);
                Ok(())
            },
            ExpressionNode::FunCall { function, arguments } => {
                self.compile_exp(class_compiler, function)?;
                if arguments.len() > 255 {
                    return Err(CompileError::TooManyOperands);
                }
                self.compile_exps(class_compiler, arguments)?;
                self.emit_bytes(OP_CALL, arguments.len() as u8);
                Ok(())
            },
            _ => Ok(()),
        }
    }

    /// Compiles a property read, on an object or on the superclass.
    pub(crate) fn compile_property(
        &mut self,
        class_compiler: &ClassCompiler,
        expression: &ExpressionNode,
    ) -> (r:
        Result<(), CompileError>)
        requires
            old(self).wf(),
            expression is GetProperty || expression is GetSuperProperty,
        ensures
            final(self).wf(),
            r is Ok ==> final(self)@.shape() == old(self)@.shape(),
            match r {
                Ok(()) => compile_exp(old(self)@, class_compiler.in_class(), expression) == Ok::<
                    _,
                    CompileError,
                >(final(self)@),
                Err(e) => compile_exp(old(self)@, class_compiler.in_class(), expression) == Err::<
                    CompilerView,
                    _,
                >(e),
            },
        decreases expression, 0int,
    {
        reveal(exp_property);
        match expression {
            ExpressionNode::GetProperty { left, right } => {
                self.compile_exp(class_compiler, left)?;
                match &**right {
                    ExpressionNode::Identifer(name) => self.emit_text(OP_GET_PROP, name.clone()),
                    _ => Err(CompileError::MalformedAst),
                }
            },
            ExpressionNode::GetSuperProperty { left: _, right } => {
                self.load(&text("this"))?;
                match &**right {
                    ExpressionNode::Identifer(name) => {
                        let index: u8 = self.add_text(name.clone())?;
                        self.load(&text("super"))?;
                        self.emit_bytes(OP_GET_SUPER, index);
                        Ok(())
                    },
                    _ => Err(CompileError::MalformedAst),
                }
            },
            _ => Ok(()),
        }
    }

    /// Compiles a method call on an object.
    pub(crate) fn compile_invoke(
        &mut self,
        class_compiler: &ClassCompiler,
        expression: &ExpressionNode,
    ) -> (r:
        Result<(), CompileError>)
        requires
            old(self).wf(),
            expression is InvokeMethod,
        ensures
            final(self).wf(),
            r is Ok ==> final(self)@.shape() == old(self)@.shape(),
            match r {
                Ok(()) => compile_exp(old(self)@, class_compiler.in_class(), expression) == Ok::<
                    _,
                    CompileError,
                >(final(self)@),
                Err(e) => compile_exp(old(self)@, class_compiler.in_class(), expression) == Err::<
                    CompilerView,
                    _,
                >(e),
            },
        decreases expression, 0int,
    {
        reveal(exp_invoke);
        match expression {
            ExpressionNode::InvokeMethod { left, right, arguments } => {
                self.compile_exp(class_compiler, left)?;
                match &**right {
                    ExpressionNode::Identifer(name) => {
                        if arguments.len() > 255 {
                            return Err(CompileError::TooManyOperands);
                        }
                        self.compile_exps(class_compiler, arguments)?;
                        self.emit_text(OP_INVOKE, name.clone())?;
                        self.emit_byte(arguments.len() as u8);
                        Ok(())
                    },
                    _ => Err(CompileError::MalformedAst),
                }
            },
            _ => Ok(()),
        }
    }

    /// Compiles a call of a method of the superclass.
    pub(crate) fn compile_super_invoke(
        &mut self,
        class_compiler: &ClassCompiler,
        expression: &ExpressionNode,
    ) -> (r:
        Result<(), CompileError>)
        requires
            old(self).wf(),
            expression is InvokeSuperMethod,
        ensures
            final(self).wf(),
            r is Ok ==> final(self)@.shape() == old(self)@.shape(),
            match r {
                Ok(()) => compile_exp(old(self)@, class_compiler.in_class(), expression) == Ok::<
                    _,
                    CompileError,
                >(final(self)@),
                Err(e) => compile_exp(old(self)@, class_compiler.in_class(), expression) == Err::<
                    CompilerView,
                    _,
                >(e),
            },
        decreases expression, 0int,
    {
        reveal(exp_super_invoke);
        match expression {
            ExpressionNode::InvokeSuperMethod { left: _, right, arguments } => {
                self.load(&text("this"))?;
                match &**right {
                    ExpressionNode::Identifer(name) => {
                        if arguments.len() > 255 {
                            return Err(CompileError::TooManyOperands);
                        }
                        self.compile_exps(class_compiler, arguments)?;
                        let index: u8 = self.add_text(name.clone())?;
                        self.load(&text("super"))?;
                        self.emit_bytes(OP_SUPER_INVOKE, index);
                        self.emit_byte(arguments.len() as u8);
                        Ok(())
                    },
                    _ => Err(CompileError::MalformedAst),
                }
            },
            _ => Ok(()),
        }
    }

    /// Compiles `and` and `or`, which leave the deciding operand on the stack.
    pub(crate) fn compile_logical(
        &mut self,
        class_compiler: &ClassCompiler,
        expression: &ExpressionNode,
    ) -> (r:
        Result<(), CompileError>)
        requires
            old(self).wf(),
            expression is Logical,
        ensures
            final(self).wf(),
            r is Ok ==> final(self)@.shape() == old(self)@.shape(),
            match r {
                Ok(()) => compile_exp(old(self)@, class_compiler.in_class(), expression) == Ok::<
                    _,
                    CompileError,
                >(final(self)@),
                Err(e) => compile_exp(old(self)@, class_compiler.in_class(), expression) == Err::<
                    CompilerView,
                    _,
                >(e),
            },
        decreases expression, 0int,
    {
        reveal(exp_logical);
        match expression {
            ExpressionNode::Logical { ope, left, right } => {
                if *ope == text("and") {
                    self.compile_exp(class_compiler, left)?;
                    let end_jump: usize = self.emit_jump(OP_JUMP_IF_FALSE);
                    self.emit_byte(OP_POP);
                    self.compile_exp(class_compiler, right)?;
                    self.patch_jump(end_jump)
                } else if *ope == text("or") {
                    self.compile_exp(class_compiler, left)?;
                    let else_jump: usize = self.emit_jump(OP_JUMP_IF_FALSE);
                    let end_jump: usize = self.emit_jump(OP_JUMP);
                    self.patch_jump(else_jump)?;
                    self.emit_byte(OP_POP);
                    self.compile_exp(class_compiler, right)?;
                    self.patch_jump(end_jump)
                } else {
                    Ok(())
                }
            },
            _ => Ok(()),
        }
    }

    /// Compiles an assignment to a variable, a property or an array element.
    pub(crate) fn compile_assign(
        &mut self,
        class_compiler: &ClassCompiler,
        expression: &ExpressionNode,
    ) -> (r:
        Result<(), CompileError>)
        requires
            old(self).wf(),
            expression is Assign,
        ensures
            final(self).wf(),
            r is Ok ==> final(self)@.shape() == old(self)@.shape(),
            match r {
                Ok(()) => compile_exp(old(self)@, class_compiler.in_class(), expression) == Ok::<
                    _,
                    CompileError,
                >(final(self)@),
                Err(e) => compile_exp(old(self)@, class_compiler.in_class(), expression) == Err::<
                    CompilerView,
                    _,
                >(e),
            },
        decreases expression, 0int,
    {
        reveal(exp_assign);
        match expression {
            ExpressionNode::Assign { ope, left, right } => {
                if *ope == text("=") {
                    match &**left {
                        ExpressionNode::Identifer(name) => {
                            self.compile_exp(class_compiler, right)?;
                            self.store(name)
                        },
                        ExpressionNode::SetProperty { left: object, right: property } => {
                            self.compile_exp(class_compiler, object)?;
                            match &**property {
                                ExpressionNode::Identifer(name) => {
                                    let index: u8 = self.add_text(name.clone())?;
                                    self.compile_exp(class_compiler, right)?;
                                    self.emit_bytes(OP_SET_PROP, index);
                                    Ok(())
                                },
                                _ => Err(CompileError::MalformedAst),
                            }
                        },
                        ExpressionNode::IndexCall { array, index } => {
                            self.compile_exp(class_compiler, array)?;
                            self.compile_exp(class_compiler, index)?;
                            self.compile_exp(class_compiler, right)?;
                            self.emit_byte(OP_INDEX_SET);
                            Ok(())
                        },
                        _ => Err(CompileError::MalformedAst),
                    }
                } else {
                    Ok(())
                }
            },
            _ => Ok(()),
        }
    }

    /// Compiles a name or a literal.
    pub(crate) fn compile_atom(
        &mut self,
        class_compiler: &ClassCompiler,
        expression: &ExpressionNode,
    ) -> (r:
        Result<(), CompileError>)
        requires
            old(self).wf(),
            expression is Identifer || expression is StringLiteral || expression is FloatLiteral
                || expression is IntegerLiteral || expression is BooleanLiteral
                || expression is NullLiteral || expression is SetProperty,
        ensures
            final(self).wf(),
            r is Ok ==> final(self)@.shape() == old(self)@.shape(),
            match r {
                Ok(()) => compile_exp(old(self)@, class_compiler.in_class(), expression) == Ok::<
                    _,
                    CompileError,
                >(final(self)@),
                Err(e) => compile_exp(old(self)@, class_compiler.in_class(), expression) == Err::<
                    CompilerView,
                    _,
                >(e),
            },
    {
        reveal(exp_atom);
        match expression {
            ExpressionNode::Identifer(name) => {
                if *name == text("this") && class_compiler.enclosing.is_none() {
                    return Err(CompileError::ThisOutsideClass);
                }
                self.load(name)
            },
            ExpressionNode::StringLiteral(value) => self.emit_text(OP_CONSTANT, value.clone()),
            ExpressionNode::FloatLiteral(bits) => self.emit_constant(
                OP_CONSTANT,
                Value::Float(*bits),
            ),
            ExpressionNode::IntegerLiteral(number) => self.emit_constant(
                OP_CONSTANT,
                Value::Integer(*number),
            ),
            ExpressionNode::BooleanLiteral(truth) => {
                if *truth {
                    self.emit_byte(OP_TRUE);
                } else {
                    self.emit_byte(OP_FALSE);
                }
                Ok(())
            },
            ExpressionNode::NullLiteral => {
                self.emit_byte(OP_NULL);
                Ok(())
            },
            _ => Ok(()),
        }
    }

    /// Compiles an expression: emits the code that leaves its value on the
    /// stack.
    pub fn compile_exp(
        &mut self,
        class_compiler: &ClassCompiler,
        expression: &ExpressionNode,
    ) -> (r:
        Result<(), CompileError>)
        requires
            old(self).wf(),
        ensures
            final(self).wf(),
            r is Ok ==> final(self)@.shape() == old(self)@.shape(),
            match r {
                Ok(()) => compile_exp(old(self)@, class_compiler.in_class(), expression) == Ok::<
                    _,
                    CompileError,
                >(final(self)@),
                Err(e) => compile_exp(old(self)@, class_compiler.in_class(), expression) == Err::<
                    CompilerView,
                    _,
                >(e),
            },
        decreases expression, 1int,
    {
        match expression {
            ExpressionNode::ArrayLiteral(_) | ExpressionNode::FunCall { .. } => self.compile_sequence(
                class_compiler,
                expression,
            ),
            ExpressionNode::GetProperty { .. } | ExpressionNode::GetSuperProperty { .. } => self.compile_property(
                class_compiler,
                expression,
            ),
            ExpressionNode::InvokeMethod { .. } => self.compile_invoke(class_compiler, expression),
            ExpressionNode::InvokeSuperMethod { .. } => self.compile_super_invoke(
                class_compiler,
                expression,
            ),
            ExpressionNode::Logical { .. } => self.compile_logical(class_compiler, expression),
            ExpressionNode::Assign { .. } => self.compile_assign(class_compiler, expression),
            ExpressionNode::RangeLiteral { .. } | ExpressionNode::Prefix { .. } | ExpressionNode::Infix {
                ..
            } | ExpressionNode::IndexCall { .. } => self.compile_operation(
                class_compiler,
                expression,
            ),
            _ => self.compile_atom(class_compiler, expression),
        }
    }
}

} // verus!
