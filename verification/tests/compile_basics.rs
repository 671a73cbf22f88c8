use loxvm::compiler::ast::{ExpressionNode, Program, StatementNode};
use loxvm::compiler::statements::compile;
use loxvm::vm::chunk::{OP_ADD, OP_CONSTANT, OP_DEFINE_GLOBAL, OP_GET_GLOBAL, OP_PRINT};

#[test]
fn var_and_print_compile_to_expected_bytes() {
    let mut program = Program::new();
    program.stmts.push(StatementNode::Var {
        name: ExpressionNode::Identifer("x".to_string()),
        value: ExpressionNode::Infix {
            ope: "+".to_string(),
            left: Box::new(ExpressionNode::IntegerLiteral(1)),
            right: Box::new(ExpressionNode::IntegerLiteral(2)),
        },
    });
    program.stmts.push(StatementNode::Print {
        expression: ExpressionNode::Identifer("x".to_string()),
    });
    let script = compile(&program).unwrap();
    let main = &script.functions[script.main];
    assert_eq!(
        main.chunk.code,
        vec![OP_CONSTANT, 0, OP_CONSTANT, 1, OP_ADD, OP_DEFINE_GLOBAL, 2, OP_GET_GLOBAL, 3, OP_PRINT]
    );
}
