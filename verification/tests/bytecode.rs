use loxvm::compiler::ast::{ExpressionNode, Program, StatementNode};
use loxvm::compiler::object::FunctionObject;
use loxvm::compiler::statements::compile;
use loxvm::compiler::Script;
use loxvm::vm::chunk::{
    operand_bytes, OP_CLOSURE, OP_CONSTANT, OP_FALSE, OP_JUMP, OP_JUMP_IF_FALSE,
    OP_JUMP_IF_RANGE_END, OP_LOOP, OP_POP, OP_PRINT, OP_TRUE,
};
use loxvm::vm::machine::{Outcome, Signal};
use loxvm::vm::value::Value;
use loxvm::vm::VM;

fn ident(text: &str) -> ExpressionNode {
    ExpressionNode::Identifer(text.to_string())
}

fn number(value: i64) -> ExpressionNode {
    ExpressionNode::IntegerLiteral(value)
}

fn truth(value: bool) -> ExpressionNode {
    ExpressionNode::BooleanLiteral(value)
}

fn binary(ope: &str, left: ExpressionNode, right: ExpressionNode) -> ExpressionNode {
    ExpressionNode::Infix { ope: ope.to_string(), left: Box::new(left), right: Box::new(right) }
}

fn logical(ope: &str, left: ExpressionNode, right: ExpressionNode) -> ExpressionNode {
    ExpressionNode::Logical { ope: ope.to_string(), left: Box::new(left), right: Box::new(right) }
}

fn set(target: &str, value: ExpressionNode) -> StatementNode {
    StatementNode::ExpStmt {
        expression: ExpressionNode::Assign {
            ope: "=".to_string(),
            left: Box::new(ident(target)),
            right: Box::new(value),
        },
    }
}

fn apply(function: &str, arguments: Vec<ExpressionNode>) -> ExpressionNode {
    ExpressionNode::FunCall { function: Box::new(ident(function)), arguments }
}

fn var(variable: &str, value: ExpressionNode) -> StatementNode {
    StatementNode::Var { name: ident(variable), value }
}

fn print(expression: ExpressionNode) -> StatementNode {
    StatementNode::Print { expression }
}

fn braces(stmts: Vec<StatementNode>) -> StatementNode {
    StatementNode::Block { stmts }
}

fn function(function_name: &str, params: Vec<&str>, body: Vec<StatementNode>) -> StatementNode {
    StatementNode::Fun {
        name: ident(function_name),
        params: params.into_iter().map(ident).collect(),
        body: Box::new(braces(body)),
    }
}

fn when(
    condition: ExpressionNode,
    consequence: StatementNode,
    alternative: Option<StatementNode>,
) -> StatementNode {
    StatementNode::If {
        condition,
        consequence: Box::new(consequence),
        alternative: alternative.map(Box::new),
    }
}

fn repeat(condition: ExpressionNode, consequence: StatementNode) -> StatementNode {
    StatementNode::While { condition, consequence: Box::new(consequence) }
}

fn each(variable: &str, from: i64, to: i64, consequence: StatementNode) -> StatementNode {
    StatementNode::For {
        name: ident(variable),
        range: ExpressionNode::RangeLiteral {
            start: Box::new(number(from)),
            end: Box::new(number(to)),
        },
        consequence: Box::new(consequence),
    }
}

fn build(stmts: Vec<StatementNode>) -> Script {
    let mut program = Program::new();
    program.stmts = stmts;
    compile(&program).expect("the script compiles")
}

fn top_level_code(stmts: Vec<StatementNode>) -> Vec<u8> {
    let script = build(stmts);
    script.functions[script.main].chunk.code.clone()
}

/// A script with every kind of jump, closures that capture, and calls.
fn sample() -> Vec<StatementNode> {
    let counter = function(
        "counter",
        vec![],
        vec![
            var("n", number(0)),
            var("step", number(1)),
            function(
                "next",
                vec![],
                vec![
                    when(
                        logical("or", binary("<", ident("n"), number(10)), truth(false)),
                        set("n", binary("+", ident("n"), ident("step"))),
                        Some(set("n", number(0))),
                    ),
                    StatementNode::Return { value: Some(ident("n")) },
                ],
            ),
            StatementNode::Return { value: Some(ident("next")) },
        ],
    );
    vec![
        counter,
        var("c", apply("counter", vec![])),
        var("i", number(0)),
        repeat(
            logical("and", binary("<", ident("i"), number(3)), truth(true)),
            braces(vec![print(apply("c", vec![])), set("i", binary("+", ident("i"), number(1)))]),
        ),
        each("k", 1, 3, braces(vec![var("twice", binary("*", ident("k"), number(2))), print(ident("twice"))])),
        when(binary("==", ident("i"), number(3)), print(number(1)), None),
    ]
}

/// The offsets at which the instructions of `function` start, and the
/// length of its code.
fn boundaries(function: &FunctionObject, functions: &Vec<FunctionObject>) -> Vec<usize> {
    let code = &function.chunk.code;
    let mut starts = Vec::new();
    let mut at = 0;
    while at < code.len() {
        starts.push(at);
        let mut width = 1 + operand_bytes(code[at]);
        if code[at] == OP_CLOSURE {
            match function.chunk.get_constant(code[at + 1] as usize) {
                Value::Function(made) => width += 2 * functions[made].upvalue_count,
                other => panic!("a closure of {:?}", other),
            }
        }
        at += width;
    }
    assert_eq!(at, code.len());
    starts.push(at);
    starts
}

#[test]
fn if_else_patches_both_jumps() {
    let code = top_level_code(vec![when(truth(true), print(number(1)), Some(print(number(2))))]);
    assert_eq!(
        code,
        vec![
            OP_TRUE,
            OP_JUMP_IF_FALSE,
            0,
            7,
            OP_POP,
            OP_CONSTANT,
            0,
            OP_PRINT,
            OP_JUMP,
            0,
            4,
            OP_POP,
            OP_CONSTANT,
            1,
            OP_PRINT
        ]
    );
}

#[test]
fn while_loops_back_to_its_condition() {
    let code = top_level_code(vec![repeat(truth(false), print(number(1)))]);
    assert_eq!(
        code,
        vec![
            OP_FALSE,
            OP_JUMP_IF_FALSE,
            0,
            7,
            OP_POP,
            OP_CONSTANT,
            0,
            OP_PRINT,
            OP_LOOP,
            0,
            11,
            OP_POP
        ]
    );
}

#[test]
fn logical_operators_jump_over_the_right_operand() {
    assert_eq!(
        top_level_code(vec![print(logical("and", truth(true), truth(false)))]),
        vec![OP_TRUE, OP_JUMP_IF_FALSE, 0, 2, OP_POP, OP_FALSE, OP_PRINT]
    );
    assert_eq!(
        top_level_code(vec![print(logical("or", truth(false), truth(true)))]),
        vec![OP_FALSE, OP_JUMP_IF_FALSE, 0, 3, OP_JUMP, 0, 2, OP_POP, OP_TRUE, OP_PRINT]
    );
}

#[test]
fn long_jump_distance_is_big_endian() {
    let body: Vec<StatementNode> =
        (0..300).map(|_| StatementNode::ExpStmt { expression: truth(true) }).collect();
    let code = top_level_code(vec![when(truth(true), braces(body), None)]);
    // 300 times OP_TRUE, OP_POP, then the jump over the missing else.
    assert_eq!(code[1], OP_JUMP_IF_FALSE);
    assert_eq!((code[2], code[3]), (0x02, 0x5c));
    assert_eq!(code[4 + 1 + 600], OP_JUMP);
    assert_eq!((code[4 + 1 + 601], code[4 + 1 + 602]), (0, 1));
    assert_eq!(code.len(), 4 + 1 + 600 + 3 + 1);
}

#[test]
fn every_jump_lands_on_an_instruction() {
    let script = build(sample());
    let mut jumps = 0;
    for function in &script.functions {
        let code = &function.chunk.code;
        let starts = boundaries(function, &script.functions);
        for at in &starts[..starts.len() - 1] {
            let op = code[*at];
            if op == OP_JUMP || op == OP_JUMP_IF_FALSE || op == OP_JUMP_IF_RANGE_END || op == OP_LOOP {
                let distance = function.chunk.read_u16(at + 1).unwrap() as usize;
                let target = if op == OP_LOOP { at + 3 - distance } else { at + 3 + distance };
                assert!(starts.contains(&target), "jump at {} to {}", at, target);
                jumps += 1;
            }
        }
    }
    assert_eq!(jumps, 11);
}

#[test]
fn same_program_compiles_to_the_same_code() {
    let first = build(sample());
    let second = build(sample());
    assert_eq!(first.main, second.main);
    assert_eq!(first.strings, second.strings);
    assert_eq!(first.functions.len(), second.functions.len());
    for (a, b) in first.functions.iter().zip(second.functions.iter()) {
        assert_eq!(a.name, b.name);
        assert_eq!(a.arity, b.arity);
        assert_eq!(a.upvalue_count, b.upvalue_count);
        assert_eq!(a.chunk.code, b.chunk.code);
        assert_eq!(a.chunk.lines, b.chunk.lines);
        assert_eq!(a.chunk.get_constant_len(), b.chunk.get_constant_len());
        for index in 0..a.chunk.get_constant_len() {
            assert_eq!(a.chunk.get_constant(index), b.chunk.get_constant(index));
        }
    }
}

#[test]
fn stack_holds_the_locals_and_nothing_else_between_statements() {
    // Every `print` stands where a statement starts; the number printed is
    // the number of locals in scope there, slot 0 included.
    let inner = function(
        "inner",
        vec!["a", "b"],
        vec![
            print(number(3)),
            var("c", binary("+", ident("a"), ident("b"))),
            print(number(4)),
            braces(vec![var("d", number(0)), var("e", number(0)), print(number(6))]),
            print(number(4)),
            when(truth(true), braces(vec![var("f", number(0)), print(number(5))]), None),
            print(number(4)),
            each("k", 0, 2, braces(vec![var("g", number(0)), print(number(7))])),
            print(number(4)),
        ],
    );
    let script = vec![
        print(number(1)),
        braces(vec![
            var("x", number(10)),
            print(number(2)),
            braces(vec![var("y", number(20)), print(number(3))]),
            print(number(2)),
            inner,
            print(number(3)),
            StatementNode::ExpStmt { expression: apply("inner", vec![ident("x"), number(1)]) },
            print(number(3)),
        ]),
        print(number(1)),
    ];
    let mut machine = VM::new(build(script));
    let mut seen = Vec::new();
    let mut signal = machine.interpret(10_000);
    loop {
        match signal {
            Signal::Print => {
                let frame = machine.state.frames.last().expect("a call is running");
                let above = machine.state.stack.len() - frame.sp;
                let told = loxvm::vm::text::join(machine.output()).unwrap();
                assert_eq!(above.to_string(), told);
                seen.push(above);
                signal = machine.run(10_000);
            }
            Signal::Continue => signal = machine.run(10_000),
            Signal::Done(outcome) => {
                assert_eq!(outcome, Outcome::End);
                break;
            }
            other => panic!("unexpected signal {:?}", other),
        }
    }
    assert_eq!(seen, vec![1, 2, 3, 2, 3, 3, 4, 6, 4, 5, 4, 7, 7, 7, 4, 3, 1]);
    assert_eq!(machine.state.stack.len(), 1);
    assert_eq!(machine.state.frames.len(), 1);
}

#[test]
fn global_declared_in_a_branch_leaves_the_stack_alone() {
    let script = vec![
        when(truth(true), var("late", number(5)), Some(var("late", number(6)))),
        print(number(1)),
        when(truth(false), var("never", number(5)), None),
        print(number(1)),
        repeat(
            binary("<", ident("late"), number(5)),
            function("bump", vec![], vec![set("late", binary("+", ident("late"), number(1)))]),
        ),
        print(number(1)),
        print(ident("late")),
    ];
    let mut machine = VM::new(build(script));
    let mut seen = Vec::new();
    let mut signal = machine.interpret(10_000);
    let mut steps = 0;
    loop {
        match signal {
            Signal::Print => {
                let frame = machine.state.frames.last().expect("a call is running");
                seen.push((
                    machine.state.stack.len() - frame.sp,
                    loxvm::vm::text::join(machine.output()).unwrap(),
                ));
                signal = machine.run(10_000);
            }
            Signal::Continue => {
                steps += 1;
                assert!(steps < 100, "the loop does not end");
                signal = machine.run(10_000);
            }
            Signal::Done(outcome) => {
                assert_eq!(outcome, Outcome::End);
                break;
            }
            other => panic!("unexpected signal {:?}", other),
        }
    }
    assert_eq!(seen.len(), 4);
    assert!(seen.iter().all(|(height, _)| *height == 1));
    assert_eq!(seen[3].1, "5");
    assert_eq!(machine.state.stack.len(), 1);
}
