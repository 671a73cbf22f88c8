use loxvm::compiler::object::{
    BoundMethodObject, ClassObject, ClosureObject, FunctionObject, InstanceObject, UpvalueObject,
};
use loxvm::compiler::Script;
use loxvm::vm::chunk::{
    operand_bytes, Chunk, OP_ADD, OP_CALL, OP_CLOSURE, OP_CONSTANT, OP_GET_GLOBAL, OP_INHERIT,
    OP_INVOKE, OP_JUMP, OP_JUMP_IF_FALSE, OP_JUMP_IF_RANGE_END, OP_LOOP, OP_NULL, OP_POP,
    OP_RETURN, OP_SUPER_INVOKE,
};
use loxvm::vm::frame::CallFrame;
use loxvm::vm::machine::{Fault, Outcome, Piece, Signal};
use loxvm::vm::natives::stepped_integers;
use loxvm::vm::ordering::{order_strings, Order};
use loxvm::vm::state::State;
use loxvm::vm::members::Members;
use loxvm::vm::table::Table;
use loxvm::vm::text::{join, name_of_native};
use loxvm::vm::value::{
    float_bits_equal, float_bits_less, is_nan_bits, ConstantArray, NativeFunction, StackArray,
    Timestamp, Value,
};
use loxvm::vm::{InterpretResult, VM};

fn rendered(state: &State, value: Value) -> String {
    join(&state.render(&Vec::new(), value)).expect("no float among the pieces")
}

#[test]
fn chunk_reads_back_what_was_written() {
    let mut chunk = Chunk::new();
    for (line, byte) in [0x12u8, 0x34, 0x56, 0x78, 0x9a].into_iter().enumerate() {
        chunk.write(byte, line as u32 + 1);
    }
    assert_eq!(chunk.get_instruction_len(), 5);
    assert_eq!(chunk.code, vec![0x12, 0x34, 0x56, 0x78, 0x9a]);
    assert_eq!(chunk.lines, vec![1, 2, 3, 4, 5]);
    assert_eq!(chunk.read_u8(0), Some(0x12));
    assert_eq!(chunk.read_u8(4), Some(0x9a));
    assert_eq!(chunk.read_u8(5), None);
    assert_eq!(chunk.read_u16(0), Some(0x1234));
    assert_eq!(chunk.read_u16(3), Some(0x789a));
    assert_eq!(chunk.read_u16(4), None);
    assert_eq!(chunk.read_u32(0), Some(0x12345678));
    assert_eq!(chunk.read_u32(1), Some(0x3456789a));
    assert_eq!(chunk.read_u32(2), None);
    assert_eq!(chunk.get_instruction(2), Some(&0x56));
    assert_eq!(chunk.get_instruction(5), None);
}

#[test]
fn chunk_instruction_is_overwritten_in_place() {
    let mut chunk = Chunk::new();
    chunk.write(OP_JUMP, 1);
    chunk.write(0xff, 1);
    chunk.write(0xff, 1);
    if let Some(byte) = chunk.get_instruction_mut(1) {
        *byte = 0x01;
    }
    if let Some(byte) = chunk.get_instruction_mut(2) {
        *byte = 0x02;
    }
    assert!(chunk.get_instruction_mut(3).is_none());
    assert_eq!(chunk.code, vec![OP_JUMP, 0x01, 0x02]);
    assert_eq!(chunk.read_u16(1), Some(0x0102));
}

#[test]
fn chunk_constants_are_numbered_in_order() {
    let mut chunk = Chunk::new();
    assert_eq!(chunk.get_constant_len(), 0);
    assert_eq!(chunk.add_constant(Value::Integer(7)), 0);
    assert_eq!(chunk.add_constant(Value::Boolean(true)), 1);
    assert_eq!(chunk.add_constant(Value::Integer(7)), 2);
    assert_eq!(chunk.get_constant_len(), 3);
    assert_eq!(chunk.get_constant(0), Value::Integer(7));
    assert_eq!(chunk.get_constant(1), Value::Boolean(true));
    assert_eq!(chunk.get_constant(3), Value::Null);
}

#[test]
fn operands_have_the_documented_sizes() {
    assert_eq!(operand_bytes(OP_RETURN), 0);
    assert_eq!(operand_bytes(OP_ADD), 0);
    assert_eq!(operand_bytes(OP_POP), 0);
    assert_eq!(operand_bytes(OP_CONSTANT), 1);
    assert_eq!(operand_bytes(OP_CALL), 1);
    assert_eq!(operand_bytes(OP_CLOSURE), 1);
    assert_eq!(operand_bytes(OP_JUMP), 2);
    assert_eq!(operand_bytes(OP_JUMP_IF_FALSE), 2);
    assert_eq!(operand_bytes(OP_JUMP_IF_RANGE_END), 2);
    assert_eq!(operand_bytes(OP_LOOP), 2);
    assert_eq!(operand_bytes(OP_INVOKE), 2);
    assert_eq!(operand_bytes(OP_SUPER_INVOKE), 2);
    assert_eq!(operand_bytes(200), 0);
}

#[test]
fn constant_array_holds_what_was_pushed() {
    let mut pool = ConstantArray::new();
    assert_eq!(pool.len(), 0);
    pool.push(Value::Integer(1));
    pool.push(Value::String(4));
    assert_eq!(pool.len(), 2);
    assert_eq!(pool.get(0), Value::Integer(1));
    assert_eq!(pool.get(1), Value::String(4));
    assert_eq!(pool.get(2), Value::Null);
    let copy = pool.duplicate();
    pool.push(Value::Null);
    assert_eq!(copy.len(), 2);
    assert_eq!(copy.get(1), Value::String(4));
}

#[test]
fn stack_array_is_last_in_first_out() {
    let mut stack = StackArray::new();
    stack.push(Value::Integer(1));
    stack.push(Value::Integer(2));
    stack.push(Value::Integer(3));
    assert_eq!(stack.len(), 3);
    assert_eq!(*stack.last(), Value::Integer(3));
    assert_eq!(*stack.get(0), Value::Integer(1));
    assert_eq!(stack.get_slice(1), vec![Value::Integer(2), Value::Integer(3)]);
    stack.set(1, Value::Boolean(false));
    assert_eq!(stack.pop(), Value::Integer(3));
    assert_eq!(stack.pop(), Value::Boolean(false));
    stack.push(Value::Null);
    stack.push(Value::Null);
    stack.set_index(1);
    assert_eq!(stack.len(), 1);
    assert_eq!(*stack.last(), Value::Integer(1));
    stack.pop_index();
    assert_eq!(stack.len(), 0);
}

#[test]
fn table_keeps_one_value_for_each_key() {
    let mut table = Table::new();
    assert_eq!(table.find(&"a".to_string()), None);
    assert_eq!(table.insert("a".to_string(), Value::Integer(1)), None);
    assert_eq!(table.insert("b".to_string(), Value::Integer(2)), None);
    assert_eq!(table.find(&"a".to_string()), Some(&Value::Integer(1)));
    assert_eq!(table.insert("a".to_string(), Value::Integer(3)), Some(Value::Integer(1)));
    assert_eq!(table.find(&"a".to_string()), Some(&Value::Integer(3)));
    assert_eq!(table.find(&"b".to_string()), Some(&Value::Integer(2)));
    assert_eq!(table.find(&"c".to_string()), None);
    assert_eq!(table.find(&"".to_string()), None);
    assert_eq!(table.insert("".to_string(), Value::Null), None);
    assert_eq!(table.find(&"".to_string()), Some(&Value::Null));
}

#[test]
fn table_holds_many_names() {
    let mut table = Table::new();
    for i in 0..1000 {
        assert_eq!(table.insert(format!("name{}", i), Value::Integer(i)), None);
    }
    for i in 0..1000 {
        assert_eq!(table.find(&format!("name{}", i)), Some(&Value::Integer(i)));
        assert_eq!(
            table.insert(format!("name{}", i), Value::Integer(-i)),
            Some(Value::Integer(i))
        );
    }
    for i in 0..1000 {
        assert_eq!(table.find(&format!("name{}", i)), Some(&Value::Integer(-i)));
    }
    assert_eq!(table.find(&"name1000".to_string()), None);
}

#[test]
fn members_keep_one_value_for_each_name() {
    let mut members = Members::new();
    assert_eq!(members.len(), 0);
    assert_eq!(members.insert("a".to_string(), Value::Integer(1)), None);
    assert_eq!(members.insert("b".to_string(), Value::Integer(2)), None);
    assert_eq!(members.insert("a".to_string(), Value::Integer(3)), Some(Value::Integer(1)));
    assert_eq!(members.len(), 2);
    assert_eq!(members.find(&"a".to_string()), Some(&Value::Integer(3)));
    assert_eq!(members.find(&"b".to_string()), Some(&Value::Integer(2)));
    assert_eq!(members.find(&"c".to_string()), None);
    assert_eq!(members.find(&"".to_string()), None);
}

#[test]
fn merged_members_prefer_the_second() {
    let mut first = Members::new();
    first.insert("greet".to_string(), Value::Closure(1));
    first.insert("only_first".to_string(), Value::Closure(2));
    let mut second = Members::new();
    second.insert("greet".to_string(), Value::Closure(3));
    second.insert("only_second".to_string(), Value::Closure(4));
    let merged = Members::merged(&first, &second);
    assert_eq!(merged.len(), 3);
    assert_eq!(merged.find(&"greet".to_string()), Some(&Value::Closure(3)));
    assert_eq!(merged.find(&"only_first".to_string()), Some(&Value::Closure(2)));
    assert_eq!(merged.find(&"only_second".to_string()), Some(&Value::Closure(4)));
    assert_eq!(first.find(&"greet".to_string()), Some(&Value::Closure(1)));
}

#[test]
fn only_false_and_null_are_falsy() {
    assert!(Value::Null.is_falsy());
    assert!(Value::Boolean(false).is_falsy());
    assert!(!Value::Boolean(true).is_falsy());
    assert!(!Value::Integer(0).is_falsy());
    assert!(!Value::Float(0f64.to_bits()).is_falsy());
    assert!(!Value::String(0).is_falsy());
    assert!(!Value::Array(0).is_falsy());
}

#[test]
fn float_bit_patterns_compare_as_the_floats_do() {
    let samples = [
        0.0f64,
        -0.0,
        1.0,
        -1.0,
        1.5,
        -2.25,
        f64::MIN_POSITIVE,
        f64::MAX,
        f64::MIN,
        f64::INFINITY,
        f64::NEG_INFINITY,
        f64::NAN,
        -f64::NAN,
    ];
    for a in samples {
        assert_eq!(is_nan_bits(a.to_bits()), a.is_nan());
        for b in samples {
            assert_eq!(float_bits_equal(a.to_bits(), b.to_bits()), a == b, "{} == {}", a, b);
            assert_eq!(float_bits_less(a.to_bits(), b.to_bits()), a < b, "{} < {}", a, b);
        }
    }
}

#[test]
fn strings_are_ordered_by_their_characters() {
    let order = |a: &str, b: &str| order_strings(&a.to_string(), &b.to_string());
    assert_eq!(order("", ""), Order::Equal);
    assert_eq!(order("", "a"), Order::Less);
    assert_eq!(order("a", ""), Order::Greater);
    assert_eq!(order("abc", "abd"), Order::Less);
    assert_eq!(order("abd", "abc"), Order::Greater);
    assert_eq!(order("abc", "abc"), Order::Equal);
    assert_eq!(order("ab", "abc"), Order::Less);
    assert_eq!(order("Z", "a"), Order::Less);
    assert_eq!(order("é", "z"), Order::Greater);
}

#[test]
fn values_are_ordered_structurally() {
    let mut state = State::new(vec!["a".to_string(), "b".to_string(), "a".to_string()]);
    let code: Vec<FunctionObject> = Vec::new();
    state.arrays.push(vec![Value::Integer(1), Value::Integer(2)]);
    state.arrays.push(vec![Value::Integer(1), Value::Integer(3)]);
    state.arrays.push(vec![Value::Integer(1)]);
    state.arrays.push(vec![Value::Integer(1), Value::Integer(2)]);
    assert_eq!(state.order(&code, Value::Integer(1), Value::Integer(2), 64), Order::Less);
    assert_eq!(state.order(&code, Value::Integer(2), Value::Integer(2), 64), Order::Equal);
    assert_eq!(state.order(&code, Value::String(0), Value::String(1), 64), Order::Less);
    assert_eq!(state.order(&code, Value::String(0), Value::String(2), 64), Order::Equal);
    assert_eq!(state.order(&code, Value::Array(0), Value::Array(1), 64), Order::Less);
    assert_eq!(state.order(&code, Value::Array(0), Value::Array(3), 64), Order::Equal);
    assert_eq!(state.order(&code, Value::Array(2), Value::Array(0), 64), Order::Less);
    assert_eq!(state.order(&code, Value::Boolean(false), Value::Boolean(true), 64), Order::Less);
    assert_eq!(state.order(&code, Value::Null, Value::Null, 64), Order::Equal);
    let nan = Value::Float(f64::NAN.to_bits());
    assert_eq!(state.order(&code, nan, nan, 64), Order::Unordered);
    assert_eq!(
        state.order(&code, Value::Float(1.5f64.to_bits()), Value::Float(2.5f64.to_bits()), 64),
        Order::Less
    );
}

#[test]
fn stepped_integers_stop_before_the_end() {
    let integers = |items: &[i64]| items.iter().map(|i| Value::Integer(*i)).collect::<Vec<_>>();
    assert_eq!(stepped_integers(0, 5, 1), integers(&[0, 1, 2, 3, 4]));
    assert_eq!(stepped_integers(1, 10, 3), integers(&[1, 4, 7]));
    assert_eq!(stepped_integers(1, 11, 3), integers(&[1, 4, 7, 10]));
    assert_eq!(stepped_integers(5, 5, 1), integers(&[]));
    assert_eq!(stepped_integers(6, 5, 1), integers(&[]));
    assert_eq!(stepped_integers(-2, 2, 2), integers(&[-2, 0]));
    assert_eq!(
        stepped_integers(i64::MAX - 2, i64::MAX, 2),
        integers(&[i64::MAX - 2])
    );
    assert_eq!(
        stepped_integers(i64::MAX - 1, i64::MAX, i64::MAX),
        integers(&[i64::MAX - 1])
    );
}

#[test]
fn built_in_functions_have_their_names() {
    assert_eq!(name_of_native(NativeFunction::Len), "len");
    assert_eq!(name_of_native(NativeFunction::Append), "append");
    assert_eq!(name_of_native(NativeFunction::Last), "last");
    assert_eq!(name_of_native(NativeFunction::Rest), "rest");
    assert_eq!(name_of_native(NativeFunction::Str), "str");
    assert_eq!(name_of_native(NativeFunction::First), "first");
    assert_eq!(name_of_native(NativeFunction::Now), "now");
    assert_eq!(name_of_native(NativeFunction::Range), "range");
    assert_eq!(name_of_native(NativeFunction::Get), "get");
}

#[test]
fn pieces_join_unless_a_float_is_among_them() {
    assert_eq!(join(&vec![]), Some(String::new()));
    assert_eq!(
        join(&vec![Piece::Text("a".to_string()), Piece::Text("bc".to_string())]),
        Some("abc".to_string())
    );
    assert_eq!(
        join(&vec![Piece::Text("a".to_string()), Piece::Float(1.5f64.to_bits())]),
        None
    );
}

#[test]
fn instants_render_as_local_date_and_time() {
    let state = State::new(Vec::new());
    let at = |seconds: i64, nanos: u32, offset: i32| {
        rendered(&state, Value::DateTime(Timestamp { seconds, nanos, offset }))
    };
    assert_eq!(at(0, 0, 0), "1970/01/01 00:00:00.000000");
    assert_eq!(at(0, 0, 3600), "1970/01/01 01:00:00.000000");
    assert_eq!(at(0, 0, -3600), "1969/12/31 23:00:00.000000");
    assert_eq!(at(86399, 123_456_789, 0), "1970/01/01 23:59:59.123456");
    assert_eq!(at(1_700_000_000, 5_000, 9 * 3600), "2023/11/15 07:13:20.000005");
    assert_eq!(at(951_782_400, 0, 0), "2000/02/29 00:00:00.000000");
}

#[test]
fn instants_that_no_calendar_holds_render_as_a_word() {
    let state = State::new(Vec::new());
    let at = |seconds: i64, nanos: u32, offset: i32| {
        rendered(&state, Value::DateTime(Timestamp { seconds, nanos, offset }))
    };
    assert_eq!(at(0, 0, 86_400), "date");
    assert_eq!(at(0, 0, -86_400), "date");
    assert_eq!(at(i64::MAX, 0, 0), "date");
    assert_eq!(at(0, 2_000_000_000, 0), "date");
}

#[test]
fn latest_instant_renders_in_any_offset() {
    let state = State::new(Vec::new());
    let late = 8_210_266_876_799;
    for offset in [-86_399, 0, 86_399] {
        let stamp = Timestamp { seconds: late, nanos: 999_999_999, offset };
        let text = rendered(&state, Value::DateTime(stamp));
        assert!(text.ends_with(".999999"), "{}", text);
        assert!(text.contains("/"), "{}", text);
    }
    let early = -8_334_601_228_800;
    for offset in [-86_399, 0, 86_399] {
        let stamp = Timestamp { seconds: early, nanos: 0, offset };
        let text = rendered(&state, Value::DateTime(stamp));
        assert!(text.ends_with(".000000"), "{}", text);
    }
}

#[test]
fn integers_and_handles_render_in_decimal() {
    let mut state = State::new(vec!["text".to_string()]);
    state.arrays.push(vec![Value::Integer(i64::MAX), Value::Integer(-1), Value::String(0)]);
    assert_eq!(rendered(&state, Value::Integer(0)), "0");
    assert_eq!(rendered(&state, Value::Integer(1234567890)), "1234567890");
    assert_eq!(rendered(&state, Value::Integer(i64::MIN)), "-9223372036854775808");
    assert_eq!(rendered(&state, Value::Array(0)), "[9223372036854775807, -1, text]");
    assert_eq!(rendered(&state, Value::String(0)), "text");
    assert_eq!(rendered(&state, Value::Native(NativeFunction::Range)), "native function range");
}

#[test]
fn two_captures_of_one_slot_share_a_cell() {
    let mut state = State::new(Vec::new());
    state.stack.push(Value::Integer(10));
    state.stack.push(Value::Integer(20));
    let first = state.capture_upvalue(1);
    let second = state.capture_upvalue(1);
    let other = state.capture_upvalue(0);
    assert_eq!(first, second);
    assert_ne!(first, other);
    assert_eq!(state.upvalues.len(), 2);
    state.write_cell(first, Value::Integer(21)).unwrap();
    assert_eq!(state.read_cell(second), Ok(Value::Integer(21)));
    assert_eq!(*state.stack.get(1), Value::Integer(21));
    assert_eq!(state.read_cell(other), Ok(Value::Integer(10)));
    assert_eq!(state.read_cell(7), Err(Fault::DanglingReference));
    assert_eq!(state.write_cell(7, Value::Null), Err(Fault::DanglingReference));
}

#[test]
fn closed_cell_keeps_its_value_and_stays_closed() {
    let mut state = State::new(Vec::new());
    state.stack.push(Value::Integer(10));
    state.stack.push(Value::Integer(20));
    state.stack.push(Value::Integer(30));
    let low = state.capture_upvalue(0);
    let middle = state.capture_upvalue(1);
    let high = state.capture_upvalue(2);
    state.close_upvalues(1);
    assert_eq!(state.upvalues[low], UpvalueObject { location: Some(0), closed: None });
    assert_eq!(
        state.upvalues[middle],
        UpvalueObject { location: None, closed: Some(Value::Integer(20)) }
    );
    assert_eq!(
        state.upvalues[high],
        UpvalueObject { location: None, closed: Some(Value::Integer(30)) }
    );
    assert_eq!(state.open_upvalue, vec![low]);
    state.stack.set(1, Value::Integer(99));
    assert_eq!(state.read_cell(middle), Ok(Value::Integer(20)));
    state.write_cell(middle, Value::Integer(21)).unwrap();
    assert_eq!(state.read_cell(middle), Ok(Value::Integer(21)));
    assert_eq!(*state.stack.get(1), Value::Integer(99));
    state.close_upvalues(0);
    state.close_upvalues(0);
    assert_eq!(
        state.upvalues[middle],
        UpvalueObject { location: None, closed: Some(Value::Integer(21)) }
    );
    assert_eq!(
        state.upvalues[low],
        UpvalueObject { location: None, closed: Some(Value::Integer(10)) }
    );
    assert!(state.open_upvalue.is_empty());
    let again = state.capture_upvalue(1);
    assert_ne!(again, middle);
    assert_eq!(state.upvalues[middle].location, None);
}

#[test]
fn outcomes_are_told_as_results() {
    assert!(matches!(InterpretResult::of(Outcome::Returned), InterpretResult::Success));
    assert!(matches!(InterpretResult::of(Outcome::End), InterpretResult::End));
    assert!(matches!(InterpretResult::of(Outcome::CompileError), InterpretResult::CompileError));
    match InterpretResult::of(Outcome::Error(Fault::UndefinedGlobal)) {
        InterpretResult::RuntimeError(message) => assert_eq!(message, "not found identifer name."),
        other => panic!("not a runtime error: {:?}", other),
    }
    assert_eq!(Fault::DivideByZero.message(), "[Not Support Operation] division by zero.");
    assert_eq!(Fault::StackOverflow.message(), "stack overflow.");
}

/// A machine about to run `code` as the top-level code of a script with
/// the given constants.
fn machine_of(code: &[u8], constants: &[Value], strings: &[&str]) -> VM {
    let mut main = FunctionObject::new("__main__".to_string(), 0);
    for byte in code {
        main.chunk.write(*byte, 1);
    }
    for constant in constants {
        main.chunk.add_constant(*constant);
    }
    VM::new(Script {
        functions: vec![main],
        strings: strings.iter().map(|text| text.to_string()).collect(),
        main: 0,
    })
}

#[test]
fn code_that_no_compiler_made_faults() {
    let fault = |code: &[u8], constants: &[Value], strings: &[&str]| {
        machine_of(code, constants, strings).run(100)
    };
    assert_eq!(fault(&[OP_POP, OP_POP], &[], &[]), Signal::Done(Outcome::Error(Fault::StackUnderflow)));
    assert_eq!(fault(&[OP_ADD], &[], &[]), Signal::Done(Outcome::Error(Fault::StackUnderflow)));
    assert_eq!(fault(&[OP_CONSTANT], &[], &[]), Signal::Done(Outcome::Error(Fault::TruncatedCode)));
    assert_eq!(fault(&[OP_JUMP, 0], &[], &[]), Signal::Done(Outcome::Error(Fault::TruncatedCode)));
    assert_eq!(
        fault(&[OP_GET_GLOBAL, 0], &[Value::Integer(1)], &[]),
        Signal::Done(Outcome::Error(Fault::BadConstant))
    );
    assert_eq!(
        fault(&[OP_GET_GLOBAL, 0], &[Value::String(3)], &["a"]),
        Signal::Done(Outcome::Error(Fault::DanglingReference))
    );
    assert_eq!(
        fault(&[OP_CLOSURE, 0], &[Value::Function(9)], &[]),
        Signal::Done(Outcome::Error(Fault::BadConstant))
    );
    assert_eq!(
        fault(&[OP_NULL, OP_NULL, OP_INHERIT], &[], &[]),
        Signal::Done(Outcome::Error(Fault::NotAClass))
    );
    assert_eq!(fault(&[], &[], &[]), Signal::Done(Outcome::End));
    assert_eq!(fault(&[OP_NULL, OP_RETURN], &[], &[]), Signal::Done(Outcome::Returned));
    assert_eq!(fault(&[250], &[], &[]), Signal::Done(Outcome::CompileError));
}

#[test]
fn host_answers_only_when_asked() {
    let mut machine = machine_of(&[OP_NULL], &[], &[]);
    assert_eq!(machine.resume_float(0), Signal::Done(Outcome::Error(Fault::HostOutOfTurn)));
    assert_eq!(machine.resume_bool(true), Signal::Done(Outcome::Error(Fault::HostOutOfTurn)));
    assert_eq!(
        machine.resume_text(String::new()),
        Signal::Done(Outcome::Error(Fault::HostOutOfTurn))
    );
    let half = Value::Float(0.5f64.to_bits());
    let mut asking = machine_of(&[OP_CONSTANT, 0, OP_CONSTANT, 0, OP_ADD, OP_POP], &[half], &[]);
    assert!(matches!(asking.run(100), Signal::Float(_, _, _)));
    assert_eq!(asking.step(), Signal::Done(Outcome::Error(Fault::HostOutOfTurn)));
    assert_eq!(asking.resume_bool(true), Signal::Done(Outcome::Error(Fault::HostOutOfTurn)));
    assert_eq!(asking.resume_float(1.0f64.to_bits()), Signal::Continue);
    assert_eq!(*asking.state.stack.last(), Value::Float(1.0f64.to_bits()));
    assert_eq!(asking.run(100), Signal::Done(Outcome::End));
    assert_eq!(asking.state.stack.len(), 1);
}

#[test]
fn too_many_calls_in_progress_overflow_the_frames() {
    let function = FunctionObject::new("f".to_string(), 0);
    let code = vec![function];
    let mut state = State::new(Vec::new());
    state.closures.push(ClosureObject::new(0));
    state.stack.push(Value::Closure(0));
    for _ in 0..255 {
        assert_eq!(state.enter(&code, 0, 0), Ok(()));
    }
    assert_eq!(state.frames.len(), 255);
    assert_eq!(state.frames[254], CallFrame { closure: 0, ip: 0, sp: 0 });
    assert_eq!(state.enter(&code, 0, 0), Ok(()));
    assert_eq!(state.enter(&code, 0, 0), Err(Fault::FrameOverflow));
    assert_eq!(state.frames.len(), 256);
    assert_eq!(state.enter(&code, 0, 1), Err(Fault::StackUnderflow));
    assert_eq!(state.enter(&code, 5, 0), Err(Fault::DanglingReference));
}

#[test]
fn objects_are_ordered_by_what_they_hold() {
    let mut f = FunctionObject::new("f".to_string(), 1);
    f.chunk.write(OP_NULL, 1);
    f.chunk.write(OP_RETURN, 1);
    let mut twin = FunctionObject::new("f".to_string(), 1);
    twin.chunk.write(OP_NULL, 1);
    twin.chunk.write(OP_RETURN, 1);
    let mut longer = FunctionObject::new("f".to_string(), 1);
    longer.chunk.write(OP_NULL, 1);
    longer.chunk.write(OP_RETURN, 1);
    longer.chunk.write(OP_RETURN, 1);
    let g = FunctionObject::new("g".to_string(), 0);
    let code = vec![f, twin, longer, g];
    let mut state = State::new(Vec::new());
    for function in 0..4 {
        state.closures.push(ClosureObject::new(function));
    }
    assert_eq!(state.order(&code, Value::Function(0), Value::Function(0), 64), Order::Equal);
    assert_eq!(state.order(&code, Value::Function(0), Value::Function(1), 64), Order::Equal);
    assert_eq!(state.order(&code, Value::Function(0), Value::Function(2), 64), Order::Less);
    assert_eq!(state.order(&code, Value::Function(0), Value::Function(3), 64), Order::Greater);
    assert_eq!(state.order(&code, Value::Function(0), Value::Function(1), 0), Order::Unordered);
    assert_eq!(state.order(&code, Value::Function(1), Value::Function(1), 0), Order::Equal);
    assert_eq!(state.order(&code, Value::Closure(0), Value::Closure(1), 64), Order::Equal);
    assert_eq!(state.order(&code, Value::Closure(2), Value::Closure(1), 64), Order::Greater);

    // Two cells that were closed over equal values, and one over another.
    state.upvalues.push(UpvalueObject { location: None, closed: Some(Value::Integer(1)) });
    state.upvalues.push(UpvalueObject { location: None, closed: Some(Value::Integer(1)) });
    state.upvalues.push(UpvalueObject { location: None, closed: Some(Value::Integer(2)) });
    state.upvalues.push(UpvalueObject { location: Some(3), closed: None });
    for cell in 0..4 {
        let mut closure = ClosureObject::new(0);
        closure.upvalues.push(cell);
        state.closures.push(closure);
    }
    assert_eq!(state.order(&code, Value::Closure(4), Value::Closure(5), 64), Order::Equal);
    assert_eq!(state.order(&code, Value::Closure(4), Value::Closure(6), 64), Order::Less);
    assert_eq!(state.order(&code, Value::Closure(4), Value::Closure(7), 64), Order::Less);
    assert_eq!(state.order(&code, Value::Closure(7), Value::Closure(4), 64), Order::Greater);
    assert_eq!(state.order(&code, Value::Closure(0), Value::Closure(4), 64), Order::Less);

    // Classes by name and methods, instances by class and fields.
    let mut first = ClassObject::new("A".to_string());
    first.methods.insert("m".to_string(), Value::Closure(0));
    let mut second = ClassObject::new("A".to_string());
    second.methods.insert("m".to_string(), Value::Closure(1));
    let mut third = ClassObject::new("A".to_string());
    third.methods.insert("m".to_string(), Value::Closure(3));
    state.classes.push(first);
    state.classes.push(second);
    state.classes.push(third);
    state.classes.push(ClassObject::new("B".to_string()));
    assert_eq!(state.order(&code, Value::Class(0), Value::Class(1), 64), Order::Equal);
    assert_eq!(state.order(&code, Value::Class(0), Value::Class(2), 64), Order::Greater);
    assert_eq!(state.order(&code, Value::Class(2), Value::Class(0), 64), Order::Less);
    assert_eq!(state.order(&code, Value::Class(0), Value::Class(3), 64), Order::Less);
    assert_eq!(state.order(&code, Value::Class(3), Value::Class(0), 64), Order::Greater);

    let mut one = InstanceObject::new(0);
    one.fields.insert("x".to_string(), Value::Integer(1));
    one.fields.insert("y".to_string(), Value::Integer(2));
    let mut same = InstanceObject::new(1);
    same.fields.insert("y".to_string(), Value::Integer(2));
    same.fields.insert("x".to_string(), Value::Integer(1));
    let mut other = InstanceObject::new(0);
    other.fields.insert("x".to_string(), Value::Integer(1));
    other.fields.insert("y".to_string(), Value::Integer(3));
    let mut fewer = InstanceObject::new(0);
    fewer.fields.insert("x".to_string(), Value::Integer(1));
    state.instances.push(one);
    state.instances.push(same);
    state.instances.push(other);
    state.instances.push(fewer);
    state.instances.push(InstanceObject::new(3));
    let mut later = InstanceObject::new(0);
    later.fields.insert("x".to_string(), Value::Integer(1));
    later.fields.insert("z".to_string(), Value::Integer(0));
    state.instances.push(later);
    let mut nan = InstanceObject::new(0);
    nan.fields.insert("x".to_string(), Value::Float(f64::NAN.to_bits()));
    state.instances.push(nan);
    assert_eq!(state.order(&code, Value::Instance(0), Value::Instance(5), 64), Order::Less);
    assert_eq!(state.order(&code, Value::Instance(5), Value::Instance(0), 64), Order::Greater);
    assert_eq!(state.order(&code, Value::Instance(3), Value::Instance(5), 64), Order::Less);
    assert_eq!(state.order(&code, Value::Instance(6), Value::Instance(6), 64), Order::Unordered);
    assert_eq!(state.order(&code, Value::Instance(0), Value::Instance(0), 64), Order::Equal);
    assert_eq!(state.order(&code, Value::Instance(0), Value::Instance(1), 64), Order::Equal);
    assert_eq!(state.order(&code, Value::Instance(0), Value::Instance(2), 64), Order::Less);
    assert_eq!(state.order(&code, Value::Instance(2), Value::Instance(0), 64), Order::Greater);
    assert_eq!(state.order(&code, Value::Instance(0), Value::Instance(3), 64), Order::Greater);
    assert_eq!(state.order(&code, Value::Instance(3), Value::Instance(0), 64), Order::Less);
    assert_eq!(state.order(&code, Value::Instance(0), Value::Instance(4), 64), Order::Less);
    assert_eq!(state.order(&code, Value::Instance(0), Value::Instance(1), 1), Order::Unordered);

    state.bound_methods.push(BoundMethodObject { reciever: Value::Instance(0), method: 0 });
    state.bound_methods.push(BoundMethodObject { reciever: Value::Instance(1), method: 1 });
    state.bound_methods.push(BoundMethodObject { reciever: Value::Instance(4), method: 0 });
    assert_eq!(state.order(&code, Value::BoundMethod(0), Value::BoundMethod(1), 64), Order::Equal);
    assert_eq!(state.order(&code, Value::BoundMethod(0), Value::BoundMethod(2), 64), Order::Less);
    assert_eq!(
        state.order(&code, Value::Native(NativeFunction::Len), Value::Native(NativeFunction::Len), 64),
        Order::Equal
    );
    assert_eq!(
        state.order(&code, Value::Native(NativeFunction::Len), Value::Native(NativeFunction::Get), 64),
        Order::Unordered
    );
}
