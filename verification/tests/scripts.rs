use loxvm::compiler::ast::{ExpressionNode, Program, StatementNode};
use loxvm::compiler::model::CompileError;
use loxvm::compiler::statements::compile;
use loxvm::vm::machine::{Fault, FloatOp, Outcome, Piece, Signal};
use loxvm::vm::value::Value;
use loxvm::vm::VM;

fn name(text: &str) -> ExpressionNode {
    ExpressionNode::Identifer(text.to_string())
}

fn whole(number: i64) -> ExpressionNode {
    ExpressionNode::IntegerLiteral(number)
}

fn fraction(number: f64) -> ExpressionNode {
    ExpressionNode::FloatLiteral(number.to_bits())
}

fn quoted(value: &str) -> ExpressionNode {
    ExpressionNode::StringLiteral(value.to_string())
}

fn infix(ope: &str, left: ExpressionNode, right: ExpressionNode) -> ExpressionNode {
    ExpressionNode::Infix { ope: ope.to_string(), left: Box::new(left), right: Box::new(right) }
}

fn assign(left: ExpressionNode, right: ExpressionNode) -> ExpressionNode {
    ExpressionNode::Assign { ope: "=".to_string(), left: Box::new(left), right: Box::new(right) }
}

fn call(function: ExpressionNode, arguments: Vec<ExpressionNode>) -> ExpressionNode {
    ExpressionNode::FunCall { function: Box::new(function), arguments }
}

fn index(array: ExpressionNode, at: ExpressionNode) -> ExpressionNode {
    ExpressionNode::IndexCall { array: Box::new(array), index: Box::new(at) }
}

fn declare(variable: &str, value: ExpressionNode) -> StatementNode {
    StatementNode::Var { name: name(variable), value }
}

fn show(expression: ExpressionNode) -> StatementNode {
    StatementNode::Print { expression }
}

fn statement(expression: ExpressionNode) -> StatementNode {
    StatementNode::ExpStmt { expression }
}

fn block(stmts: Vec<StatementNode>) -> StatementNode {
    StatementNode::Block { stmts }
}

fn fun(function: &str, params: Vec<&str>, body: Vec<StatementNode>) -> StatementNode {
    StatementNode::Fun {
        name: name(function),
        params: params.into_iter().map(name).collect(),
        body: Box::new(block(body)),
    }
}

fn ret(value: ExpressionNode) -> StatementNode {
    StatementNode::Return { value: Some(value) }
}

fn number_of(value: Value) -> f64 {
    match value {
        Value::Integer(number) => number as f64,
        Value::Float(bits) => f64::from_bits(bits),
        other => panic!("not a number: {:?}", other),
    }
}

fn write(pieces: &Vec<Piece>) -> String {
    let mut line = String::new();
    for piece in pieces {
        match piece {
            Piece::Text(part) => line.push_str(part),
            Piece::Float(bits) => line.push_str(&format!("{}", f64::from_bits(*bits))),
        }
    }
    line
}

fn power(left: Value, right: Value) -> f64 {
    match (left, right) {
        (Value::Float(a), Value::Float(b)) => f64::from_bits(a).powf(f64::from_bits(b)),
        (Value::Float(a), Value::Integer(b)) => f64::from_bits(a).powi(b as i32),
        (Value::Integer(a), Value::Float(b)) => (a as f64).powf(f64::from_bits(b)),
        (Value::Integer(a), Value::Integer(b)) => (a as f64).powi(b as i32),
        other => panic!("not numbers: {:?}", other),
    }
}

fn drive(machine: &mut VM) -> (Vec<String>, Outcome) {
    let mut lines = Vec::new();
    let mut signal = machine.interpret(1000);
    loop {
        signal = match signal {
            Signal::Continue => machine.run(1000),
            Signal::Done(outcome) => return (lines, outcome),
            Signal::Print => {
                lines.push(write(machine.output()));
                machine.run(1000)
            }
            Signal::Text => {
                let rendered = write(machine.output());
                machine.resume_text(rendered)
            }
            Signal::Float(FloatOp::Equal, left, right) => {
                machine.resume_bool(number_of(left) == number_of(right))
            }
            Signal::Float(op, left, right) => {
                let (a, b) = (number_of(left), number_of(right));
                let result = match op {
                    FloatOp::Add => a + b,
                    FloatOp::Subtract => a - b,
                    FloatOp::Multiply => a * b,
                    FloatOp::Divide => a / b,
                    FloatOp::Remainder => a % b,
                    FloatOp::Power => power(left, right),
                    FloatOp::Equal => unreachable!(),
                };
                machine.resume_float(result.to_bits())
            }
        };
    }
}

fn run(stmts: Vec<StatementNode>) -> (Vec<String>, Outcome) {
    let mut program = Program::new();
    program.stmts = stmts;
    let script = compile(&program).expect("the script compiles");
    let mut machine = VM::new(script);
    drive(&mut machine)
}

fn lines(stmts: Vec<StatementNode>) -> Vec<String> {
    let (lines, outcome) = run(stmts);
    assert_eq!(outcome, Outcome::End);
    lines
}

#[test]
fn sum_of_two_integers_is_printed() {
    assert_eq!(lines(vec![declare("x", infix("+", whole(1), whole(2))), show(name("x"))]), vec!["3"]);
}

#[test]
fn range_loop_concatenates_its_items() {
    let body = statement(assign(name("s"), infix("+", name("s"), name("i"))));
    let looping = StatementNode::For {
        name: name("i"),
        range: ExpressionNode::RangeLiteral { start: Box::new(whole(1)), end: Box::new(whole(3)) },
        consequence: Box::new(body),
    };
    assert_eq!(lines(vec![declare("s", quoted("")), looping, show(name("s"))]), vec!["123"]);
}

#[test]
fn closure_keeps_its_counter_after_the_scope_is_gone() {
    let inc = fun(
        "inc",
        vec![],
        vec![statement(assign(name("n"), infix("+", name("n"), whole(1)))), ret(name("n"))],
    );
    let make = fun("make", vec![], vec![declare("n", whole(0)), inc, ret(name("inc"))]);
    let script = vec![
        make,
        declare("f", call(name("make"), vec![])),
        show(call(name("f"), vec![])),
        show(call(name("f"), vec![])),
        show(call(name("f"), vec![])),
    ];
    assert_eq!(lines(script), vec!["1", "2", "3"]);
}

fn class(class_name: &str, parent: Option<&str>, methods: Vec<StatementNode>) -> StatementNode {
    StatementNode::Class {
        name: name(class_name),
        body: Box::new(block(methods)),
        super_class: parent.map(name),
    }
}

fn invoke(receiver: ExpressionNode, method: &str, arguments: Vec<ExpressionNode>) -> ExpressionNode {
    ExpressionNode::InvokeMethod { left: Box::new(receiver), right: Box::new(name(method)), arguments }
}

fn invoke_super(method: &str, arguments: Vec<ExpressionNode>) -> ExpressionNode {
    ExpressionNode::InvokeSuperMethod {
        left: Box::new(name("super")),
        right: Box::new(name(method)),
        arguments,
    }
}

#[test]
fn overriding_method_reaches_the_superclass_through_super() {
    let a = class("A", None, vec![fun("greet", vec![], vec![show(quoted("A"))])]);
    let b = class(
        "B",
        Some("A"),
        vec![fun("greet", vec![], vec![statement(invoke_super("greet", vec![])), show(quoted("B"))])],
    );
    let script = vec![a, b, statement(invoke(call(name("B"), vec![]), "greet", vec![]))];
    assert_eq!(lines(script), vec!["A", "B"]);
}

#[test]
fn array_items_are_written_and_read() {
    let script = vec![
        declare("a", ExpressionNode::ArrayLiteral(vec![whole(10), whole(20), whole(30)])),
        statement(assign(index(name("a"), whole(1)), whole(99))),
        show(index(name("a"), whole(1))),
        show(index(name("a"), whole(5))),
    ];
    assert_eq!(lines(script), vec!["99", "null"]);
}

#[test]
fn recursive_factorial() {
    let base = StatementNode::If {
        condition: infix("<", name("n"), whole(2)),
        consequence: Box::new(ret(whole(1))),
        alternative: None,
    };
    let step = ret(infix("*", name("n"), call(name("fact"), vec![infix("-", name("n"), whole(1))])));
    let script = vec![fun("fact", vec!["n"], vec![base, step]), show(call(name("fact"), vec![whole(5)]))];
    assert_eq!(lines(script), vec!["120"]);
}

#[test]
fn two_closures_over_one_local_see_each_other() {
    let set = fun("set", vec!["v"], vec![statement(assign(name("n"), name("v")))]);
    let get = fun("get_n", vec![], vec![ret(name("n"))]);
    let pair = fun(
        "pair",
        vec![],
        vec![declare("n", whole(1)), set, get, ret(ExpressionNode::ArrayLiteral(vec![name("set"), name("get_n")]))],
    );
    let script = vec![
        pair,
        declare("p", call(name("pair"), vec![])),
        statement(call(index(name("p"), whole(0)), vec![whole(42)])),
        show(call(index(name("p"), whole(1)), vec![])),
    ];
    assert_eq!(lines(script), vec!["42"]);
}

#[test]
fn float_arithmetic_goes_through_the_host() {
    let script = vec![
        show(infix("+", fraction(1.5), whole(2))),
        show(infix("*", fraction(1.5), fraction(2.0))),
        show(infix("^", whole(2), whole(10))),
        show(infix("/", whole(7), whole(2))),
        show(infix("%", whole(7), whole(4))),
        show(infix("-", whole(7), fraction(0.5))),
    ];
    assert_eq!(lines(script), vec!["3.5", "3", "1024", "3", "3", "6.5"]);
}

#[test]
fn text_with_a_float_is_rendered_by_the_host() {
    let script = vec![
        show(infix("+", quoted("x="), fraction(2.5))),
        show(infix("+", fraction(2.5), quoted("!"))),
        show(call(name("str"), vec![ExpressionNode::ArrayLiteral(vec![fraction(0.25), whole(1)])])),
    ];
    assert_eq!(lines(script), vec!["x=2.5", "2.5!", "[0.25, 1]"]);
}

#[test]
fn values_render_as_text() {
    let script = vec![
        show(whole(-42)),
        show(whole(i64::MIN)),
        show(whole(0)),
        show(quoted("hello")),
        show(ExpressionNode::BooleanLiteral(true)),
        show(ExpressionNode::BooleanLiteral(false)),
        show(ExpressionNode::NullLiteral),
        show(ExpressionNode::ArrayLiteral(vec![whole(1), quoted("a"), ExpressionNode::ArrayLiteral(vec![])])),
        show(infix("+", quoted("n="), whole(7))),
        show(infix("+", quoted("b="), ExpressionNode::BooleanLiteral(true))),
        show(infix("+", quoted("a="), ExpressionNode::ArrayLiteral(vec![whole(1), whole(2)]))),
        show(name("len")),
    ];
    assert_eq!(
        lines(script),
        vec![
            "-42",
            "-9223372036854775808",
            "0",
            "hello",
            "true",
            "false",
            "null",
            "[1, a, []]",
            "n=7",
            "b=true",
            "a=[1, 2]",
            "native function len"
        ]
    );
}

#[test]
fn functions_classes_and_instances_render_as_text() {
    let script = vec![
        fun("f", vec!["a", "b"], vec![]),
        class("C", None, vec![fun("m", vec![], vec![])]),
        show(name("f")),
        show(name("C")),
        show(call(name("C"), vec![])),
        show(ExpressionNode::GetProperty {
            left: Box::new(call(name("C"), vec![])),
            right: Box::new(name("m")),
        }),
    ];
    assert_eq!(
        lines(script),
        vec![
            "closure f param_len=2 upvalue_len=0",
            "class C",
            "instance <- class C",
            "method reciever: instance <- class C, name: m"
        ]
    );
}

#[test]
fn comparisons_are_structural() {
    let script = vec![
        show(infix("<", whole(1), whole(2))),
        show(infix(">", whole(1), whole(2))),
        show(infix("<=", whole(2), whole(2))),
        show(infix(">=", whole(1), whole(2))),
        show(infix("==", quoted("ab"), quoted("ab"))),
        show(infix("!=", quoted("ab"), quoted("ac"))),
        show(infix("<", quoted("ab"), quoted("b"))),
        show(infix("==", ExpressionNode::ArrayLiteral(vec![whole(1), whole(2)]), ExpressionNode::ArrayLiteral(vec![whole(1), whole(2)]))),
        show(infix("<", ExpressionNode::ArrayLiteral(vec![whole(1)]), ExpressionNode::ArrayLiteral(vec![whole(1), whole(0)]))),
        show(infix("==", ExpressionNode::NullLiteral, ExpressionNode::NullLiteral)),
        show(infix("==", whole(1), quoted("1"))),
        show(infix("<", fraction(1.5), fraction(2.5))),
        show(infix("<", fraction(-1.5), fraction(-2.5))),
        show(infix("==", fraction(0.0), fraction(-0.0))),
        show(infix("==", fraction(f64::NAN), fraction(f64::NAN))),
        show(infix("==", whole(1), fraction(1.0))),
        show(infix("<", fraction(5.0), whole(1))),
    ];
    assert_eq!(
        lines(script),
        vec![
            "true", "false", "true", "false", "true", "true", "true", "true", "true", "true",
            "false", "true", "false", "true", "false", "true", "true"
        ]
    );
}

#[test]
fn logical_operators_leave_the_deciding_operand() {
    let and = |l, r| ExpressionNode::Logical { ope: "and".to_string(), left: Box::new(l), right: Box::new(r) };
    let or = |l, r| ExpressionNode::Logical { ope: "or".to_string(), left: Box::new(l), right: Box::new(r) };
    let script = vec![
        show(and(whole(1), whole(2))),
        show(and(ExpressionNode::NullLiteral, whole(2))),
        show(or(ExpressionNode::BooleanLiteral(false), whole(3))),
        show(or(whole(4), whole(5))),
        show(ExpressionNode::Prefix { ope: "!".to_string(), right: Box::new(ExpressionNode::NullLiteral) }),
        show(ExpressionNode::Prefix { ope: "-".to_string(), right: Box::new(whole(5)) }),
        show(ExpressionNode::Prefix { ope: "-".to_string(), right: Box::new(fraction(2.5)) }),
    ];
    assert_eq!(lines(script), vec!["2", "null", "3", "4", "true", "-5", "-2.5"]);
}

#[test]
fn while_loop_and_if_else() {
    let body = block(vec![
        StatementNode::If {
            condition: infix("==", infix("%", name("i"), whole(2)), whole(0)),
            consequence: Box::new(show(quoted("even"))),
            alternative: Some(Box::new(show(quoted("odd")))),
        },
        statement(assign(name("i"), infix("+", name("i"), whole(1)))),
    ]);
    let script = vec![
        declare("i", whole(0)),
        StatementNode::While { condition: infix("<", name("i"), whole(3)), consequence: Box::new(body) },
        show(name("i")),
    ];
    assert_eq!(lines(script), vec!["even", "odd", "even", "3"]);
}

#[test]
fn built_in_functions() {
    let list = || ExpressionNode::ArrayLiteral(vec![whole(1), whole(2), whole(3)]);
    let script = vec![
        show(call(name("len"), vec![list()])),
        show(call(name("len"), vec![whole(1)])),
        show(call(name("append"), vec![list(), whole(4), whole(5)])),
        show(call(name("first"), vec![list()])),
        show(call(name("last"), vec![list()])),
        show(call(name("rest"), vec![list()])),
        show(call(name("rest"), vec![ExpressionNode::ArrayLiteral(vec![])])),
        show(call(name("str"), vec![whole(12)])),
        show(infix("+", call(name("str"), vec![whole(12)]), quoted("!"))),
        show(call(name("range"), vec![whole(3)])),
        show(call(name("range"), vec![whole(2), whole(5)])),
        show(call(name("range"), vec![whole(0), whole(10), whole(4)])),
        show(call(name("range"), vec![])),
        show(call(name("get"), vec![list(), whole(1)])),
        show(call(name("get"), vec![list(), whole(7)])),
        show(call(name("get"), vec![list(), whole(-1)])),
        show(call(name("get"), vec![list()])),
    ];
    assert_eq!(
        lines(script),
        vec![
            "3", "null", "[1, 2, 3, 4, 5]", "1", "3", "[2, 3]", "[]", "12", "12!", "[0, 1, 2]",
            "[2, 3, 4]", "[0, 4, 8]", "null", "2", "null", "null", "null"
        ]
    );
}

#[test]
fn append_leaves_its_argument_alone() {
    let script = vec![
        declare("a", ExpressionNode::ArrayLiteral(vec![whole(1)])),
        declare("b", call(name("append"), vec![name("a"), whole(2)])),
        show(name("a")),
        show(name("b")),
    ];
    assert_eq!(lines(script), vec!["[1]", "[1, 2]"]);
}

#[test]
fn now_reads_the_clock() {
    let mut program = Program::new();
    program.stmts = vec![declare("t", call(name("now"), vec![])), show(infix("==", name("t"), name("t"))), show(name("t"))];
    let mut machine = VM::new(compile(&program).unwrap());
    let (lines, outcome) = drive(&mut machine);
    assert_eq!(outcome, Outcome::End);
    assert_eq!(lines[0], "true");
    // 2020-01-01 is 1577836800 seconds after the epoch.
    assert!(machine.state.clock.seconds > 1_577_836_800);
    assert_eq!(lines[1].len(), "1970/01/01 00:00:00.000000".len());
    assert_eq!(&lines[1][4..5], "/");
}

#[test]
fn instances_have_fields_and_initializers() {
    let init = fun(
        "init",
        vec!["x"],
        vec![statement(assign(
            ExpressionNode::SetProperty { left: Box::new(name("this")), right: Box::new(name("x")) },
            name("x"),
        ))],
    );
    let double = fun(
        "double",
        vec![],
        vec![ret(infix(
            "*",
            ExpressionNode::GetProperty { left: Box::new(name("this")), right: Box::new(name("x")) },
            whole(2),
        ))],
    );
    let get = |object: ExpressionNode, field: &str| ExpressionNode::GetProperty {
        left: Box::new(object),
        right: Box::new(name(field)),
    };
    let script = vec![
        class("P", None, vec![init, double]),
        declare("p", call(name("P"), vec![whole(21)])),
        show(get(name("p"), "x")),
        show(invoke(name("p"), "double", vec![])),
        show(get(name("p"), "missing")),
        declare("m", get(name("p"), "double")),
        show(call(name("m"), vec![])),
    ];
    assert_eq!(lines(script), vec!["21", "42", "null", "42"]);
}

#[test]
fn inherited_method_is_found_in_the_subclass() {
    let a = class("A", None, vec![fun("hello", vec![], vec![show(quoted("hello from A"))])]);
    let b = class("B", Some("A"), vec![]);
    let script = vec![a, b, statement(invoke(call(name("B"), vec![]), "hello", vec![]))];
    assert_eq!(lines(script), vec!["hello from A"]);
}

#[test]
fn super_property_binds_the_method_of_the_superclass() {
    let a = class("A", None, vec![fun("who", vec![], vec![ret(quoted("A"))])]);
    let super_who = ExpressionNode::GetSuperProperty {
        left: Box::new(name("super")),
        right: Box::new(name("who")),
    };
    let b = class(
        "B",
        Some("A"),
        vec![
            fun("who", vec![], vec![ret(quoted("B"))]),
            fun("parent", vec![], vec![declare("m", super_who), ret(call(name("m"), vec![]))]),
        ],
    );
    let script = vec![a, b, show(invoke(call(name("B"), vec![]), "parent", vec![]))];
    assert_eq!(lines(script), vec!["A"]);
}

fn fault_of(stmts: Vec<StatementNode>) -> Fault {
    match run(stmts).1 {
        Outcome::Error(fault) => fault,
        other => panic!("expected a fault, found {:?}", other),
    }
}

#[test]
fn runtime_errors() {
    assert_eq!(fault_of(vec![show(name("nowhere"))]), Fault::UndefinedGlobal);
    assert_eq!(fault_of(vec![show(infix("/", whole(1), whole(0)))]), Fault::DivideByZero);
    assert_eq!(fault_of(vec![show(infix("%", whole(1), whole(0)))]), Fault::DivideByZero);
    assert_eq!(fault_of(vec![show(infix("+", whole(i64::MAX), whole(1)))]), Fault::IntegerOverflow);
    assert_eq!(fault_of(vec![show(infix("/", whole(i64::MIN), whole(-1)))]), Fault::IntegerOverflow);
    assert_eq!(fault_of(vec![show(infix("-", quoted("a"), whole(1)))]), Fault::TypeMismatch);
    assert_eq!(
        fault_of(vec![show(infix("+", ExpressionNode::NullLiteral, whole(1)))]),
        Fault::TypeMismatch
    );
    assert_eq!(fault_of(vec![statement(call(whole(1), vec![]))]), Fault::NotCallable);
    assert_eq!(
        fault_of(vec![fun("f", vec!["a"], vec![]), statement(call(name("f"), vec![]))]),
        Fault::ArityMismatch
    );
    assert_eq!(fault_of(vec![show(index(whole(1), whole(0)))]), Fault::NotAnArray);
    assert_eq!(
        fault_of(vec![show(index(ExpressionNode::ArrayLiteral(vec![]), quoted("x")))]),
        Fault::NotAnInteger
    );
    assert_eq!(
        fault_of(vec![
            declare("a", ExpressionNode::ArrayLiteral(vec![whole(1)])),
            statement(assign(index(name("a"), whole(3)), whole(0)))
        ]),
        Fault::IndexOutOfRange
    );
    assert_eq!(
        fault_of(vec![
            class("A", None, vec![]),
            statement(invoke(call(name("A"), vec![]), "nothing", vec![]))
        ]),
        Fault::UndefinedMethod
    );
    assert_eq!(
        fault_of(vec![statement(invoke(whole(1), "nothing", vec![]))]),
        Fault::NotAnInstance
    );
    assert_eq!(
        fault_of(vec![show(call(name("first"), vec![ExpressionNode::ArrayLiteral(vec![])]))]),
        Fault::BadArguments
    );
    assert_eq!(
        fault_of(vec![show(call(name("range"), vec![whole(0), whole(3), whole(0)]))]),
        Fault::BadArguments
    );
    assert_eq!(
        fault_of(vec![class("A", None, vec![]), statement(call(name("A"), vec![whole(1)]))]),
        Fault::ArityMismatch
    );
}

#[test]
fn deep_recursion_overflows_the_stack() {
    let script = vec![
        fun("f", vec![], vec![ret(call(name("f"), vec![]))]),
        statement(call(name("f"), vec![])),
    ];
    // Every call in progress has its callee on the stack, which is full
    // with the callee of the last call that fits.
    assert_eq!(fault_of(script), Fault::StackOverflow);
}

#[test]
fn top_level_return_ends_the_script() {
    let (lines, outcome) = run(vec![show(whole(1)), ret(whole(0)), show(whole(2))]);
    assert_eq!(lines, vec!["1"]);
    assert_eq!(outcome, Outcome::Returned);
}

#[test]
fn compile_errors() {
    let compile_of = |stmts: Vec<StatementNode>| {
        let mut program = Program::new();
        program.stmts = stmts;
        compile(&program).map(|_| ())
    };
    assert_eq!(
        compile_of(vec![block(vec![declare("a", whole(1)), declare("a", whole(2))])]),
        Err(CompileError::DuplicateLocal)
    );
    assert_eq!(compile_of(vec![class("A", Some("A"), vec![])]), Err(CompileError::SelfInheritance));
    assert_eq!(compile_of(vec![show(name("this"))]), Err(CompileError::ThisOutsideClass));
    assert_eq!(
        compile_of(vec![StatementNode::Var { name: whole(1), value: whole(2) }]),
        Err(CompileError::MalformedAst)
    );
    assert_eq!(
        compile_of(vec![class("A", None, vec![show(whole(1))])]),
        Err(CompileError::MalformedAst)
    );
    let many: Vec<StatementNode> = (0..300).map(|i| show(whole(i))).collect();
    assert_eq!(compile_of(many), Err(CompileError::TooManyConstants));
    let locals: Vec<StatementNode> =
        (0..300).map(|i| declare(&format!("v{}", i), ExpressionNode::NullLiteral)).collect();
    assert_eq!(compile_of(vec![block(locals)]), Err(CompileError::TooManyLocals));
    let arguments: Vec<ExpressionNode> = (0..256).map(|_| ExpressionNode::NullLiteral).collect();
    assert_eq!(
        compile_of(vec![statement(call(name("f"), arguments))]),
        Err(CompileError::TooManyOperands)
    );
    let long_body: Vec<StatementNode> =
        (0..40000).map(|_| statement(ExpressionNode::NullLiteral)).collect();
    assert_eq!(
        compile_of(vec![StatementNode::While {
            condition: ExpressionNode::BooleanLiteral(false),
            consequence: Box::new(block(long_body))
        }]),
        Err(CompileError::JumpTooFar)
    );
    assert_eq!(compile_of(vec![block(vec![declare("a", whole(1)), block(vec![declare("a", whole(2))])])]), Ok(()));
}

#[test]
fn too_many_upvalues() {
    let mut body: Vec<StatementNode> =
        (0..40).map(|i| declare(&format!("v{}", i), ExpressionNode::NullLiteral)).collect();
    let uses: Vec<StatementNode> = (0..40).map(|i| show(name(&format!("v{}", i)))).collect();
    body.push(fun("inner", vec![], uses));
    let mut program = Program::new();
    program.stmts = vec![fun("outer", vec![], body)];
    assert_eq!(compile(&program).map(|_| ()), Err(CompileError::TooManyUpvalues));
}

#[test]
fn objects_are_equal_if_they_hold_the_same() {
    let set = |object: &str, field: &str, value: ExpressionNode| {
        statement(assign(
            ExpressionNode::SetProperty {
                left: Box::new(name(object)),
                right: Box::new(name(field)),
            },
            value,
        ))
    };
    let get = |object: &str, field: &str| ExpressionNode::GetProperty {
        left: Box::new(name(object)),
        right: Box::new(name(field)),
    };
    let script = vec![
        class("A", None, vec![fun("m", vec![], vec![ret(whole(1))])]),
        class("B", None, vec![]),
        show(infix("==", call(name("A"), vec![]), call(name("A"), vec![]))),
        show(infix("==", call(name("A"), vec![]), call(name("B"), vec![]))),
        declare("a", call(name("A"), vec![])),
        declare("b", call(name("A"), vec![])),
        set("a", "x", whole(1)),
        show(infix("==", name("a"), name("b"))),
        set("b", "x", whole(1)),
        show(infix("==", name("a"), name("b"))),
        set("b", "x", whole(2)),
        show(infix("==", name("a"), name("b"))),
        show(infix("<", name("a"), name("b"))),
        show(infix(">", name("a"), name("b"))),
        show(infix("==", get("a", "m"), get("a", "m"))),
        show(infix("==", get("a", "m"), get("b", "m"))),
        show(infix("==", name("A"), name("A"))),
        show(infix("==", name("A"), name("B"))),
        show(infix("<", name("A"), name("B"))),
        fun("f", vec![], vec![]),
        fun("g", vec![], vec![]),
        show(infix("==", name("f"), name("f"))),
        show(infix("==", name("f"), name("g"))),
        show(infix(
            "==",
            ExpressionNode::ArrayLiteral(vec![call(name("A"), vec![])]),
            ExpressionNode::ArrayLiteral(vec![call(name("A"), vec![])]),
        )),
        show(infix("==", name("len"), name("len"))),
    ];
    assert_eq!(
        lines(script),
        vec![
            "true", "false", "false", "true", "false", "true", "false", "true", "false", "true",
            "false", "true", "true", "false", "true", "true"
        ]
    );
}

#[test]
fn integer_division_rounds_toward_zero() {
    let script = vec![
        show(infix("/", whole(7), whole(2))),
        show(infix("/", whole(-7), whole(2))),
        show(infix("/", whole(7), whole(-2))),
        show(infix("/", whole(-7), whole(-2))),
        show(infix("%", whole(7), whole(2))),
        show(infix("%", whole(-7), whole(2))),
        show(infix("%", whole(7), whole(-2))),
        show(infix("%", whole(-7), whole(-2))),
        show(infix("%", whole(0), whole(-2))),
        show(infix("/", whole(i64::MIN), whole(1))),
        show(infix("%", whole(i64::MIN), whole(1))),
        show(infix("*", whole(-3), whole(4))),
        show(infix("-", whole(i64::MIN), whole(-1))),
    ];
    assert_eq!(
        lines(script),
        vec![
            "3",
            "-3",
            "-3",
            "3",
            "1",
            "-1",
            "1",
            "-1",
            "0",
            "-9223372036854775808",
            "0",
            "-12",
            "-9223372036854775807"
        ]
    );
    assert_eq!(
        fault_of(vec![show(infix("%", whole(i64::MIN), whole(-1)))]),
        Fault::IntegerOverflow
    );
    assert_eq!(
        fault_of(vec![show(infix("*", whole(i64::MAX), whole(2)))]),
        Fault::IntegerOverflow
    );
}

fn stopped(stmts: Vec<StatementNode>) -> (VM, Outcome) {
    let mut program = Program::new();
    program.stmts = stmts;
    let script = compile(&program).expect("the script compiles");
    let mut machine = VM::new(script);
    let (_, outcome) = drive(&mut machine);
    (machine, outcome)
}

#[test]
fn fault_leaves_what_there_was() {
    let (machine, outcome) = stopped(vec![
        declare("a", ExpressionNode::ArrayLiteral(vec![whole(1), whole(2)])),
        statement(assign(index(name("a"), whole(5)), whole(0))),
    ]);
    assert_eq!(outcome, Outcome::Error(Fault::IndexOutOfRange));
    assert_eq!(machine.state.arrays, vec![vec![Value::Integer(1), Value::Integer(2)]]);
    assert_eq!(machine.state.frames.len(), 1);

    let (machine, outcome) = stopped(vec![declare("x", whole(1)), show(name("nowhere"))]);
    assert_eq!(outcome, Outcome::Error(Fault::UndefinedGlobal));
    assert_eq!(machine.state.stack.len(), 1);
    assert_eq!(machine.state.globals.find(&"nowhere".to_string()), None);
    assert_eq!(machine.state.globals.find(&"x".to_string()), Some(&Value::Integer(1)));

    let (machine, outcome) =
        stopped(vec![fun("f", vec!["a"], vec![]), statement(call(name("f"), vec![]))]);
    assert_eq!(outcome, Outcome::Error(Fault::ArityMismatch));
    assert_eq!(machine.state.frames.len(), 1);
    assert_eq!(machine.state.stack.len(), 2);
    assert!(matches!(machine.state.stack.last(), Value::Closure(_)));

    let (machine, outcome) = stopped(vec![
        class("A", None, vec![]),
        statement(call(name("A"), vec![whole(1), whole(2)])),
    ]);
    assert_eq!(outcome, Outcome::Error(Fault::ArityMismatch));
    assert_eq!(machine.state.frames.len(), 1);
    assert_eq!(machine.state.stack.len(), 4);

    let (machine, outcome) = stopped(vec![statement(call(whole(7), vec![quoted("x")]))]);
    assert_eq!(outcome, Outcome::Error(Fault::NotCallable));
    assert_eq!(machine.state.frames.len(), 1);
    assert_eq!(machine.state.stack.len(), 3);
    assert_eq!(*machine.state.stack.get(1), Value::Integer(7));
}
