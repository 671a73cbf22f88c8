//! The structural order of values, by which `<`, `>` and `==` decide.
//!
//! Values are compared by what they hold.  An object is followed to what it
//! refers to: an array to its items, a closure to its function and cells, a
//! class to its name and methods, an instance to its class and fields, a
//! bound method to its receiver and method.  A table of methods or fields
//! is compared as the list of its bindings in the order of the names.
use vstd::prelude::*;
use super::machine::{Code, Machine};
use super::members::Members;
use super::state::State;
use crate::compiler::object::FunctionObject;
use super::value::{float_bits_less, float_is_nan, float_key, is_nan_bits, float_bits_equal, Value};

verus! {

/// How deep objects within objects are followed when two values are
/// compared.
pub const ORDER_DEPTH: usize = 64;

/// How two values stand to each other.
#[derive(Debug, Clone, Copy, PartialEq, Eq, Structural)]
pub enum Order {
    Less,
    Equal,
    Greater,
    /// Neither is less, and they are not equal: a NaN is involved, or two
    /// different objects are too deep to be followed or are built-in
    /// functions.
    Unordered,
}

/// The first order, and where that is equality the second: the order of
/// two pairs.
pub open spec fn then(first: Order, second: Order) -> Order {
    if first == Order::Equal {
        second
    } else {
        first
    }
}

/// The lexicographic order of two sequences of numbers from position `from`
/// on, given that they agree before it.
pub open spec fn order_numbers(a: Seq<int>, b: Seq<int>, from: int) -> Order
    decreases a.len() - from,
{
    if from < 0 || from >= a.len() || from >= b.len() {
        order_int(a.len() as int, b.len() as int)
    } else if a[from] != b[from] {
        order_int(a[from], b[from])
    } else {
        order_numbers(a, b, from + 1)
    }
}

/// The bytes as numbers.
pub open spec fn byte_numbers(bytes: Seq<u8>) -> Seq<int> {
    Seq::new(bytes.len(), |i: int| bytes[i] as int)
}

/// The line numbers as numbers.
pub open spec fn line_numbers(lines: Seq<u32>) -> Seq<int> {
    Seq::new(lines.len(), |i: int| lines[i] as int)
}

/// The order of two optional numbers: none comes first.
pub open spec fn order_place(a: Option<usize>, b: Option<usize>) -> Order {
    match (a, b) {
        (None, None) => Order::Equal,
        (None, Some(_)) => Order::Less,
        (Some(_), None) => Order::Greater,
        (Some(x), Some(y)) => order_int(x as int, y as int),
    }
}

/// The order of two integers.
pub open spec fn order_int(a: int, b: int) -> Order {
    if a < b {
        Order::Less
    } else if a > b {
        Order::Greater
    } else {
        Order::Equal
    }
}

/// The lexicographic order of two texts from position `from` on, given that
/// they agree before it.
pub open spec fn order_text(a: Seq<char>, b: Seq<char>, from: int) -> Order
    decreases a.len() - from,
{
    if from < 0 || from >= a.len() || from >= b.len() {
        order_int(a.len() as int, b.len() as int)
    } else if a[from] != b[from] {
        order_int(a[from] as u32 as int, b[from] as u32 as int)
    } else {
        order_text(a, b, from + 1)
    }
}

proof fn lemma_order_text_same(a: Seq<char>, from: int)
    ensures
        order_text(a, a, from) == Order::Equal,
    decreases a.len() - from,
{
    if 0 <= from < a.len() {
        lemma_order_text_same(a, from + 1);
    }
}

impl Machine {
    /// The order of two values.  Values of different kinds are ordered by
    /// kind.  Numbers, truth values, strings and instants are ordered by what
    /// they hold, and objects by what they refer to, one part after the
    /// other: arrays item by item, a function by its arity, code, constants,
    /// lines, name and number of upvalues, a closure by its function and its
    /// cells, a class by its name and methods, an instance by its class and
    /// fields, a bound method by its receiver and method.  Tables of methods
    /// and of fields are ordered by their bindings, taken in the order of
    /// the names.  Objects nested deeper than `depth` are equal to
    /// themselves and unordered otherwise, and so are built-in functions.
    pub open spec fn order(self, code: Code, a: Value, b: Value, depth: nat) -> Order
        decreases depth, 0nat,
    {
        if a.rank() != b.rank() {
            order_int(a.rank(), b.rank())
        } else {
            match (a, b) {
                (Value::Float(x), Value::Float(y)) => if float_is_nan(x) || float_is_nan(y) {
                    Order::Unordered
                } else {
                    order_int(float_key(x), float_key(y))
                },
                (Value::Integer(x), Value::Integer(y)) => order_int(x as int, y as int),
                (Value::String(x), Value::String(y)) => order_text(
                    self.text_of(x),
                    self.text_of(y),
                    0,
                ),
                (Value::Boolean(x), Value::Boolean(y)) => if x == y {
                    Order::Equal
                } else if y {
                    Order::Less
                } else {
                    Order::Greater
                },
                (Value::DateTime(x), Value::DateTime(y)) => if x.seconds != y.seconds {
                    order_int(x.seconds as int, y.seconds as int)
                } else {
                    order_int(x.nanos as int, y.nanos as int)
                },
                (Value::Array(x), Value::Array(y)) => if x < self.arrays.len() && y
                    < self.arrays.len() && depth > 0 {
                    self.order_items(
                        code,
                        self.arrays[x as int],
                        self.arrays[y as int],
                        0,
                        (depth - 1) as nat,
                    )
                } else {
                    same(a, b)
                },
                (Value::Function(x), Value::Function(y)) => if x < code.len() && y < code.len()
                    && depth > 0 {
                    let f = code[x as int]@;
                    let g = code[y as int]@;
                    then(
                        order_int(f.arity, g.arity),
                        then(
                            order_numbers(byte_numbers(f.code), byte_numbers(g.code), 0),
                            then(
                                self.order_items(
                                    code,
                                    f.constants,
                                    g.constants,
                                    0,
                                    (depth - 1) as nat,
                                ),
                                then(
                                    order_numbers(line_numbers(f.lines), line_numbers(g.lines), 0),
                                    then(
                                        order_text(f.name, g.name, 0),
                                        order_int(f.upvalue_count, g.upvalue_count),
                                    ),
                                ),
                            ),
                        ),
                    )
                } else {
                    same(a, b)
                },
                (Value::Closure(x), Value::Closure(y)) => if x < self.closures.len() && y
                    < self.closures.len() && depth > 0 {
                    then(
                        self.order(
                            code,
                            Value::Function(self.closures[x as int].function),
                            Value::Function(self.closures[y as int].function),
                            (depth - 1) as nat,
                        ),
                        self.order_cells(
                            code,
                            self.closures[x as int].upvalues,
                            self.closures[y as int].upvalues,
                            0,
                            (depth - 1) as nat,
                        ),
                    )
                } else {
                    same(a, b)
                },
                (Value::Class(x), Value::Class(y)) => if x < self.classes.len() && y
                    < self.classes.len() && depth > 0 {
                    then(
                        order_text(self.classes[x as int].name, self.classes[y as int].name, 0),
                        self.order_members(
                            code,
                            self.classes[x as int].methods,
                            self.classes[y as int].methods,
                            (depth - 1) as nat,
                        ),
                    )
                } else {
                    same(a, b)
                },
                (Value::Instance(x), Value::Instance(y)) => if x < self.instances.len() && y
                    < self.instances.len() && depth > 0 {
                    then(
                        self.order(
                            code,
                            Value::Class(self.instances[x as int].class),
                            Value::Class(self.instances[y as int].class),
                            (depth - 1) as nat,
                        ),
                        self.order_members(
                            code,
                            self.instances[x as int].fields,
                            self.instances[y as int].fields,
                            (depth - 1) as nat,
                        ),
                    )
                } else {
                    same(a, b)
                },
                (Value::BoundMethod(x), Value::BoundMethod(y)) => if x < self.bound_methods.len()
                    && y < self.bound_methods.len() && depth > 0 {
                    then(
                        self.order(
                            code,
                            self.bound_methods[x as int].reciever,
                            self.bound_methods[y as int].reciever,
                            (depth - 1) as nat,
                        ),
                        self.order(
                            code,
                            Value::Closure(self.bound_methods[x as int].method),
                            Value::Closure(self.bound_methods[y as int].method),
                            (depth - 1) as nat,
                        ),
                    )
                } else {
                    same(a, b)
                },
                _ => same(a, b),
            }
        }
    }

    /// The lexicographic order of two arrays from position `from` on, given
    /// that they are equal before it.
    pub open spec fn order_items(
        self,
        code: Code,
        a: Seq<Value>,
        b: Seq<Value>,
        from: int,
        depth: nat,
    ) -> Order
        decreases depth, a.len() - from + 1,
    {
        if from < 0 || from >= a.len() || from >= b.len() {
            order_int(a.len() as int, b.len() as int)
        } else {
            match self.order(code, a[from], b[from], depth) {
                Order::Equal => self.order_items(code, a, b, from + 1, depth),
                other => other,
            }
        }
    }

    /// The order of two cells: by the slot that an open cell stands for,
    /// then by the value that a closed cell holds; a cell that has none of
    /// the two comes first.
    pub open spec fn order_cell(self, code: Code, x: usize, y: usize, depth: nat) -> Order
        decreases depth, 1nat,
    {
        if x < self.upvalues.len() && y < self.upvalues.len() {
            then(
                order_place(self.upvalues[x as int].location, self.upvalues[y as int].location),
                match (self.upvalues[x as int].closed, self.upvalues[y as int].closed) {
                    (None, None) => Order::Equal,
                    (None, Some(_)) => Order::Less,
                    (Some(_), None) => Order::Greater,
                    (Some(v), Some(w)) => self.order(code, v, w, depth),
                },
            )
        } else if x == y {
            Order::Equal
        } else {
            Order::Unordered
        }
    }

    /// The lexicographic order of two lists of cells from position `from`
    /// on, given that they are equal before it.
    pub open spec fn order_cells(
        self,
        code: Code,
        a: Seq<usize>,
        b: Seq<usize>,
        from: int,
        depth: nat,
    ) -> Order
        decreases depth, a.len() - from + 2,
    {
        if from < 0 || from >= a.len() || from >= b.len() {
            order_int(a.len() as int, b.len() as int)
        } else {
            match self.order_cell(code, a[from], b[from], depth) {
                Order::Equal => self.order_cells(code, a, b, from + 1, depth),
                other => other,
            }
        }
    }

    /// How the values stand to each other that two tables bind to the
    /// names that both bind.
    pub open spec fn values_order(
        self,
        code: Code,
        a: Map<Seq<char>, Value>,
        b: Map<Seq<char>, Value>,
        depth: nat,
    ) -> Map<Seq<char>, Order>
        decreases depth, 1nat,
    {
        Map::new(
            |k: Seq<char>| a.contains_key(k) && b.contains_key(k),
            |k: Seq<char>| self.order(code, a[k], b[k], depth),
        )
    }

    /// The order of two tables, which is that of their bindings taken in
    /// the order of the names.
    pub open spec fn order_members(
        self,
        code: Code,
        a: Map<Seq<char>, Value>,
        b: Map<Seq<char>, Value>,
        depth: nat,
    ) -> Order
        decreases depth, 2nat,
    {
        table_order(a.dom(), b.dom(), self.values_order(code, a, b, depth))
    }
}

/// Two tables with the names `a` and `b` differ at the name `k`: one of
/// them binds it and the other does not, or they bind it to values that are
/// not equal.  `at` says how the values stand that both bind.
pub open spec fn differ_at(
    a: Set<Seq<char>>,
    b: Set<Seq<char>>,
    at: Map<Seq<char>, Order>,
    k: Seq<char>,
) -> bool {
    a.contains(k) != b.contains(k) || (a.contains(k) && at[k] != Order::Equal)
}

/// `k` is the first name, in the order of names, at which the two tables
/// differ.
#[verifier::opaque]
pub open spec fn first_difference(
    a: Set<Seq<char>>,
    b: Set<Seq<char>>,
    at: Map<Seq<char>, Order>,
    k: Seq<char>,
) -> bool {
    differ_at(a, b, at, k) && forall|j: Seq<char>|
        #[trigger] differ_at(a, b, at, j) && j != k ==> before(k, j)
}

/// The order of two tables whose first difference is at `k`: the values
/// decide if both bind the name; if only one binds it, that table comes
/// first if the other has a name further on, and last if the other has
/// none.
pub open spec fn order_at(
    a: Set<Seq<char>>,
    b: Set<Seq<char>>,
    at: Map<Seq<char>, Order>,
    k: Seq<char>,
) -> Order {
    if a.contains(k) && b.contains(k) {
        at[k]
    } else if a.contains(k) {
        if further(b, k) {
            Order::Less
        } else {
            Order::Greater
        }
    } else {
        if further(a, k) {
            Order::Greater
        } else {
            Order::Less
        }
    }
}

/// The order of two tables with the names `a` and `b`.  Tables that differ
/// nowhere are equal; else the first name at which they differ decides.
#[verifier::opaque]
pub open spec fn table_order(a: Set<Seq<char>>, b: Set<Seq<char>>, at: Map<Seq<char>, Order>) -> Order {
    if forall|k: Seq<char>| !#[trigger] differ_at(a, b, at, k) {
        Order::Equal
    } else if exists|k: Seq<char>| #[trigger] first_difference(a, b, at, k) {
        order_at(a, b, at, choose|k: Seq<char>| #[trigger] first_difference(a, b, at, k))
    } else {
        Order::Unordered
    }
}

/// The name `a` comes before the name `b`.
pub open spec fn before(a: Seq<char>, b: Seq<char>) -> bool {
    order_text(a, b, 0) == Order::Less
}

/// One of the names comes after `k`.
pub open spec fn further(names: Set<Seq<char>>, k: Seq<char>) -> bool {
    exists|j: Seq<char>| #[trigger] names.contains(j) && before(k, j)
}

/// Texts that are in order as equal, from a position up to which they
/// agree, are the same text.
proof fn lemma_text_equal(a: Seq<char>, b: Seq<char>, from: int)
    requires
        0 <= from <= a.len(),
        from <= b.len(),
        forall|i: int| 0 <= i < from ==> a[i] == b[i],
        order_text(a, b, from) == Order::Equal,
    ensures
        a == b,
    decreases a.len() - from,
{
    if from >= a.len() || from >= b.len() {
        assert(a =~= b);
    } else {
        vstd::utf8::char_u32_cast(a[from], a[from] as u32);
        vstd::utf8::char_u32_cast(b[from], b[from] as u32);
        lemma_text_equal(a, b, from + 1);
    }
}

/// No text comes before a text that comes before it.
proof fn lemma_text_one_way(a: Seq<char>, b: Seq<char>, from: int)
    requires
        0 <= from,
    ensures
        order_text(a, b, from) == Order::Less <==> order_text(b, a, from) == Order::Greater,
        order_text(a, b, from) == Order::Greater <==> order_text(b, a, from) == Order::Less,
        order_text(a, b, from) != Order::Unordered,
    decreases a.len() - from,
{
    if !(from >= a.len() || from >= b.len()) && a[from] == b[from] {
        lemma_text_one_way(a, b, from + 1);
    }
}

/// What comes before a text comes before all that the text comes before.
proof fn lemma_text_chain(a: Seq<char>, b: Seq<char>, c: Seq<char>, from: int)
    requires
        0 <= from,
        order_text(a, b, from) == Order::Less,
        order_text(b, c, from) == Order::Less,
    ensures
        order_text(a, c, from) == Order::Less,
    decreases a.len() - from,
{
    if from < a.len() && from < b.len() && from < c.len() {
        if a[from] == b[from] && b[from] == c[from] {
            lemma_text_chain(a, b, c, from + 1);
        }
    }
}

/// The order of two objects that are not followed: an object is equal to
/// itself and has no order with another.
pub open spec fn same(a: Value, b: Value) -> Order {
    if a == b {
        Order::Equal
    } else {
        Order::Unordered
    }
}

fn order_integers(a: i64, b: i64) -> (r: Order)
    ensures
        r == order_int(a as int, b as int),
{
    if a < b {
        Order::Less
    } else if a > b {
        Order::Greater
    } else {
        Order::Equal
    }
}

fn order_sizes(a: usize, b: usize) -> (r: Order)
    ensures
        r == order_int(a as int, b as int),
{
    if a < b {
        Order::Less
    } else if a > b {
        Order::Greater
    } else {
        Order::Equal
    }
}

/// The lexicographic order of two strings.
pub fn order_strings(a: &String, b: &String) -> (r: Order)
    ensures
        r == order_text(a@, b@, 0),
{
    if *a == *b {
        proof {
            lemma_order_text_same(a@, 0);
        }
        return Order::Equal;
    }
    let left = a.as_str();
    let right = b.as_str();
    let left_len: usize = left.unicode_len();
    let right_len: usize = right.unicode_len();
    let mut index: usize = 0;
    while index < left_len && index < right_len
        invariant
            left@ == a@,
            right@ == b@,
            left_len == a@.len(),
            right_len == b@.len(),
            index <= left_len,
            index <= right_len,
            order_text(a@, b@, 0) == order_text(a@, b@, index as int),
        decreases left_len - index,
    {
        let x: char = left.get_char(index);
        let y: char = right.get_char(index);
        if x != y {
            return order_integers(x as u32 as i64, y as u32 as i64);
        }
        index += 1;
    }
    order_sizes(left_len, right_len)
}

/// The lexicographic order of two byte strings.
fn order_bytes(a: &Vec<u8>, b: &Vec<u8>) -> (r: Order)
    ensures
        r == order_numbers(byte_numbers(a@), byte_numbers(b@), 0),
{
    let ghost left = byte_numbers(a@);
    let ghost right = byte_numbers(b@);
    let mut index: usize = 0;
    while index < a.len() && index < b.len()
        invariant
            left == byte_numbers(a@),
            right == byte_numbers(b@),
            index <= a@.len(),
            index <= b@.len(),
            order_numbers(left, right, 0) == order_numbers(left, right, index as int),
        decreases a@.len() - index,
    {
        if a[index] != b[index] {
            return order_integers(a[index] as i64, b[index] as i64);
        }
        index += 1;
    }
    order_sizes(a.len(), b.len())
}

/// The lexicographic order of two lists of line numbers.
fn order_lines(a: &Vec<u32>, b: &Vec<u32>) -> (r: Order)
    ensures
        r == order_numbers(line_numbers(a@), line_numbers(b@), 0),
{
    let ghost left = line_numbers(a@);
    let ghost right = line_numbers(b@);
    let mut index: usize = 0;
    while index < a.len() && index < b.len()
        invariant
            left == line_numbers(a@),
            right == line_numbers(b@),
            index <= a@.len(),
            index <= b@.len(),
            order_numbers(left, right, 0) == order_numbers(left, right, index as int),
        decreases a@.len() - index,
    {
        if a[index] != b[index] {
            return order_integers(a[index] as i64, b[index] as i64);
        }
        index += 1;
    }
    order_sizes(a.len(), b.len())
}

fn order_places(a: Option<usize>, b: Option<usize>) -> (r: Order)
    ensures
        r == order_place(a, b),
{
    match (a, b) {
        (None, None) => Order::Equal,
        (None, Some(_)) => Order::Less,
        (Some(_), None) => Order::Greater,
        (Some(x), Some(y)) => order_sizes(x, y),
    }
}

fn same_value(a: Value, b: Value) -> (r: Order)
    ensures
        r == same(a, b),
{
    if a == b {
        Order::Equal
    } else {
        Order::Unordered
    }
}

impl State {
    /// The order of two values.
    pub fn order(&self, code: &Vec<FunctionObject>, a: Value, b: Value, depth: usize) -> (r: Order)
        requires
            self.wf(),
        ensures
            r == self@.order(code@, a, b, depth as nat),
        decreases depth, 0nat,
    {
        let left: u8 = a.kind_rank();
        let right: u8 = b.kind_rank();
        if left != right {
            return order_integers(left as i64, right as i64);
        }
        match (a, b) {
            (Value::Float(x), Value::Float(y)) => {
                if is_nan_bits(x) || is_nan_bits(y) {
                    Order::Unordered
                } else if float_bits_less(x, y) {
                    Order::Less
                } else if float_bits_equal(x, y) {
                    Order::Equal
                } else {
                    Order::Greater
                }
            },
            (Value::Integer(x), Value::Integer(y)) => order_integers(x, y),
            (Value::String(x), Value::String(y)) => {
                let empty = String::new();
                let first = if x < self.strings.len() {
                    &self.strings[x]
                } else {
                    &empty
                };
                let second = if y < self.strings.len() {
                    &self.strings[y]
                } else {
                    &empty
                };
                order_strings(first, second)
            },
            (Value::Boolean(x), Value::Boolean(y)) => {
                if x == y {
                    Order::Equal
                } else if y {
                    Order::Less
                } else {
                    Order::Greater
                }
            },
            (Value::DateTime(x), Value::DateTime(y)) => {
                if x.seconds != y.seconds {
                    order_integers(x.seconds, y.seconds)
                } else {
                    order_integers(x.nanos as i64, y.nanos as i64)
                }
            },
            (Value::Array(x), Value::Array(y)) => {
                if x < self.arrays.len() && y < self.arrays.len() && depth > 0 {
                    self.order_values(code, &self.arrays[x], &self.arrays[y], depth - 1)
                } else {
                    same_value(a, b)
                }
            },
            (Value::Function(x), Value::Function(y)) => {
                if x < code.len() && y < code.len() && depth > 0 {
                    let f = &code[x];
                    let g = &code[y];
                    let by_arity: Order = order_integers(f.arity as i64, g.arity as i64);
                    if by_arity != Order::Equal {
                        return by_arity;
                    }
                    let by_code: Order = order_bytes(&f.chunk.code, &g.chunk.code);
                    if by_code != Order::Equal {
                        return by_code;
                    }
                    let by_constants: Order = self.order_values(
                        code,
                        f.chunk.constants.values(),
                        g.chunk.constants.values(),
                        depth - 1,
                    );
                    if by_constants != Order::Equal {
                        return by_constants;
                    }
                    let by_lines: Order = order_lines(&f.chunk.lines, &g.chunk.lines);
                    if by_lines != Order::Equal {
                        return by_lines;
                    }
                    let by_name: Order = order_strings(&f.name, &g.name);
                    if by_name != Order::Equal {
                        return by_name;
                    }
                    order_sizes(f.upvalue_count, g.upvalue_count)
                } else {
                    same_value(a, b)
                }
            },
            (Value::Closure(x), Value::Closure(y)) => {
                if x < self.closures.len() && y < self.closures.len() && depth > 0 {
                    let by_function: Order = self.order(
                        code,
                        Value::Function(self.closures[x].function),
                        Value::Function(self.closures[y].function),
                        depth - 1,
                    );
                    if by_function != Order::Equal {
                        return by_function;
                    }
                    self.order_cells(
                        code,
                        &self.closures[x].upvalues,
                        &self.closures[y].upvalues,
                        depth - 1,
                    )
                } else {
                    same_value(a, b)
                }
            },
            (Value::Class(x), Value::Class(y)) => {
                if x < self.classes.len() && y < self.classes.len() && depth > 0 {
                    let by_name: Order = order_strings(&self.classes[x].name, &self.classes[y].name);
                    if by_name != Order::Equal {
                        return by_name;
                    }
                    self.order_members(
                        code,
                        &self.classes[x].methods,
                        &self.classes[y].methods,
                        depth - 1,
                    )
                } else {
                    same_value(a, b)
                }
            },
            (Value::Instance(x), Value::Instance(y)) => {
                if x < self.instances.len() && y < self.instances.len() && depth > 0 {
                    let by_class: Order = self.order(
                        code,
                        Value::Class(self.instances[x].class),
                        Value::Class(self.instances[y].class),
                        depth - 1,
                    );
                    if by_class != Order::Equal {
                        return by_class;
                    }
                    self.order_members(
                        code,
                        &self.instances[x].fields,
                        &self.instances[y].fields,
                        depth - 1,
                    )
                } else {
                    same_value(a, b)
                }
            },
            (Value::BoundMethod(x), Value::BoundMethod(y)) => {
                if x < self.bound_methods.len() && y < self.bound_methods.len() && depth > 0 {
                    let by_receiver: Order = self.order(
                        code,
                        self.bound_methods[x].reciever,
                        self.bound_methods[y].reciever,
                        depth - 1,
                    );
                    if by_receiver != Order::Equal {
                        return by_receiver;
                    }
                    self.order(
                        code,
                        Value::Closure(self.bound_methods[x].method),
                        Value::Closure(self.bound_methods[y].method),
                        depth - 1,
                    )
                } else {
                    same_value(a, b)
                }
            },
            _ => same_value(a, b),
        }
    }

    /// The lexicographic order of two lists of values.
    fn order_values(
        &self,
        code: &Vec<FunctionObject>,
        left: &Vec<Value>,
        right: &Vec<Value>,
        depth: usize,
    ) -> (r: Order)
        requires
            self.wf(),
        ensures
            r == self@.order_items(code@, left@, right@, 0, depth as nat),
        decreases depth, 1nat,
    {
        let mut index: usize = 0;
        while index < left.len() && index < right.len()
            invariant
                self.wf(),
                index <= left@.len(),
                index <= right@.len(),
                self@.order_items(code@, left@, right@, 0, depth as nat) == self@.order_items(
                    code@,
                    left@,
                    right@,
                    index as int,
                    depth as nat,
                ),
            decreases left@.len() - index,
        {
            match self.order(code, left[index], right[index], depth) {
                Order::Equal => {},
                other => {
                    return other;
                },
            }
            index += 1;
        }
        order_sizes(left.len(), right.len())
    }

    /// The order of two cells.
    fn order_cell(&self, code: &Vec<FunctionObject>, x: usize, y: usize, depth: usize) -> (r: Order)
        requires
            self.wf(),
        ensures
            r == self@.order_cell(code@, x, y, depth as nat),
        decreases depth, 1nat,
    {
        if x < self.upvalues.len() && y < self.upvalues.len() {
            let by_place: Order = order_places(self.upvalues[x].location, self.upvalues[y].location);
            if by_place != Order::Equal {
                return by_place;
            }
            match (self.upvalues[x].closed, self.upvalues[y].closed) {
                (None, None) => Order::Equal,
                (None, Some(_)) => Order::Less,
                (Some(_), None) => Order::Greater,
                (Some(v), Some(w)) => self.order(code, v, w, depth),
            }
        } else if x == y {
            Order::Equal
        } else {
            Order::Unordered
        }
    }

    /// The lexicographic order of two lists of cells.
    fn order_cells(
        &self,
        code: &Vec<FunctionObject>,
        left: &Vec<usize>,
        right: &Vec<usize>,
        depth: usize,
    ) -> (r: Order)
        requires
            self.wf(),
        ensures
            r == self@.order_cells(code@, left@, right@, 0, depth as nat),
        decreases depth, 2nat,
    {
        let mut index: usize = 0;
        while index < left.len() && index < right.len()
            invariant
                self.wf(),
                index <= left@.len(),
                index <= right@.len(),
                self@.order_cells(code@, left@, right@, 0, depth as nat) == self@.order_cells(
                    code@,
                    left@,
                    right@,
                    index as int,
                    depth as nat,
                ),
            decreases left@.len() - index,
        {
            match self.order_cell(code, left[index], right[index], depth) {
                Order::Equal => {},
                other => {
                    return other;
                },
            }
            index += 1;
        }
        order_sizes(left.len(), right.len())
    }

    /// The two tables differ at the `index`-th name of `left`.
    fn differs_left(
        &self,
        code: &Vec<FunctionObject>,
        left: &Members,
        right: &Members,
        index: usize,
        depth: usize,
    ) -> (r: bool)
        requires
            self.wf(),
            left.wf(),
            right.wf(),
            index < left.keys().len(),
        ensures
            left@.contains_key(left.keys()[index as int]),
            r == differ_at(
                left@.dom(),
                right@.dom(),
                self@.values_order(code@, left@, right@, depth as nat),
                left.keys()[index as int],
            ),
        decreases depth, 1nat,
    {
        let key = left.key_at(index);
        let value: Value = left.value_at(index);
        match right.find(key) {
            None => true,
            Some(other) => match self.order(code, value, *other, depth) {
                Order::Equal => false,
                _ => true,
            },
        }
    }

    /// The first name of `left`, in the order of names, at which the
    /// tables differ.
    fn first_left(
        &self,
        code: &Vec<FunctionObject>,
        left: &Members,
        right: &Members,
        depth: usize,
    ) -> (r: Option<usize>)
        requires
            self.wf(),
            left.wf(),
            right.wf(),
        ensures
            least_of(
                left.keys(),
                left@.dom(),
                right@.dom(),
                self@.values_order(code@, left@, right@, depth as nat),
                left.keys().len() as int,
                r,
            ),
        decreases depth, 2nat,
    {
        let ghost at = self@.values_order(code@, left@, right@, depth as nat);
        let mut found: Option<usize> = None;
        let mut index: usize = 0;
        while index < left.len()
            invariant
                self.wf(),
                left.wf(),
                right.wf(),
                at == self@.values_order(code@, left@, right@, depth as nat),
                index <= left.keys().len(),
                least_of(left.keys(), left@.dom(), right@.dom(), at, index as int, found),
            decreases left.keys().len() - index,
        {
            let differs: bool = self.differs_left(code, left, right, index, depth);
            let earlier: bool = match found {
                None => true,
                Some(first) => match order_strings(left.key_at(index), left.key_at(first)) {
                    Order::Less => true,
                    _ => false,
                },
            };
            proof {
                left.lemma_keys();
                lemma_least_grows(
                    left.keys(),
                    left@.dom(),
                    right@.dom(),
                    at,
                    index as int,
                    found,
                );
            }
            if differs && earlier {
                found = Some(index);
            }
            index += 1;
        }
        found
    }

    /// The first name, in the order of names, that `right` binds and `left`
    /// does not.
    fn first_right(left: &Members, right: &Members) -> (r: Option<usize>)
        requires
            left.wf(),
            right.wf(),
        ensures
            least_of(
                right.keys(),
                right@.dom(),
                left@.dom(),
                all_equal(),
                right.keys().len() as int,
                r,
            ),
            forall|j: int|
                0 <= j < right.keys().len() ==> (differ_at(
                    right@.dom(),
                    left@.dom(),
                    all_equal(),
                    #[trigger] right.keys()[j],
                ) <==> !left@.contains_key(right.keys()[j])),
    {
        proof {
            right.lemma_keys();
        }
        let mut found: Option<usize> = None;
        let mut index: usize = 0;
        while index < right.len()
            invariant
                left.wf(),
                right.wf(),
                index <= right.keys().len(),
                forall|j: int|
                    0 <= j < right.keys().len() ==> right@.contains_key(#[trigger] right.keys()[j]),
                least_of(right.keys(), right@.dom(), left@.dom(), all_equal(), index as int, found),
            decreases right.keys().len() - index,
        {
            let name = right.key_at(index);
            let differs: bool = left.find(name).is_none();
            let earlier: bool = match found {
                None => true,
                Some(first) => match order_strings(name, right.key_at(first)) {
                    Order::Less => true,
                    _ => false,
                },
            };
            proof {
                right.lemma_keys();
                lemma_least_grows(
                    right.keys(),
                    right@.dom(),
                    left@.dom(),
                    all_equal(),
                    index as int,
                    found,
                );
            }
            if differs && earlier {
                found = Some(index);
            }
            index += 1;
        }
        found
    }

    /// One of the names of the table comes after `key`.
    fn has_further(table: &Members, key: &String) -> (r: bool)
        requires
            table.wf(),
        ensures
            r == further(table@.dom(), key@),
    {
        proof {
            table.lemma_keys();
        }
        let mut index: usize = 0;
        while index < table.len()
            invariant
                table.wf(),
                index <= table.keys().len(),
                forall|j: int| 0 <= j < index ==> !before(key@, #[trigger] table.keys()[j]),
            decreases table.keys().len() - index,
        {
            let name = table.key_at(index);
            let _ = table.value_at(index);
            match order_strings(key, name) {
                Order::Less => {
                    assert(table@.dom().contains(name@) && before(key@, name@));
                    return true;
                },
                _ => {},
            }
            index += 1;
        }
        proof {
            table.lemma_keys();
            assert forall|j: Seq<char>| #[trigger] table@.dom().contains(j) implies !before(
                key@,
                j,
            ) by {
                assert(table.keys().contains(j));
                let i = choose|i: int| 0 <= i < table.keys().len() && table.keys()[i] == j;
                assert(!before(key@, table.keys()[i]));
            }
        }
        false
    }

    /// The order of two tables.
    fn order_members(
        &self,
        code: &Vec<FunctionObject>,
        left: &Members,
        right: &Members,
        depth: usize,
    ) -> (r: Order)
        requires
            self.wf(),
            left.wf(),
            right.wf(),
        ensures
            r == self@.order_members(code@, left@, right@, depth as nat),
        decreases depth, 3nat,
    {
        let ghost at = self@.values_order(code@, left@, right@, depth as nat);
        let in_left: Option<usize> = self.first_left(code, left, right, depth);
        let in_right: Option<usize> = Self::first_right(left, right);
        let by_left: bool = match (in_left, in_right) {
            (None, None) => {
                proof {
                    lemma_no_difference(left, right, at);
                }
                return Order::Equal;
            },
            (Some(_), None) => true,
            (None, Some(_)) => false,
            (Some(first), Some(other)) => match order_strings(
                left.key_at(first),
                right.key_at(other),
            ) {
                Order::Less => true,
                _ => false,
            },
        };
        if by_left {
            let first: usize = match in_left {
                Some(first) => first,
                None => 0,
            };
            let key = left.key_at(first);
            let value: Value = left.value_at(first);
            proof {
                lemma_first(left, right, at, in_left, in_right, key@);
                lemma_decided(left@.dom(), right@.dom(), at, key@);
            }
            match right.find(key) {
                Some(other) => self.order(code, value, *other, depth),
                None => {
                    if Self::has_further(right, key) {
                        Order::Less
                    } else {
                        Order::Greater
                    }
                },
            }
        } else {
            let first: usize = match in_right {
                Some(first) => first,
                None => 0,
            };
            let key = right.key_at(first);
            let _ = right.value_at(first);
            proof {
                lemma_first(left, right, at, in_left, in_right, key@);
                lemma_decided(left@.dom(), right@.dom(), at, key@);
            }
            if Self::has_further(left, key) {
                Order::Greater
            } else {
                Order::Less
            }
        }
    }
}

/// The table of orders that holds equality under every name: with it, two
/// tables differ at the names that only one of them binds.
pub open spec fn all_equal() -> Map<Seq<char>, Order> {
    Map::total(|k: Seq<char>| Order::Equal)
}

/// `found` is the first, in the order of names, of the first `upto` names
/// in `names` at which the tables differ; there is none if they differ at
/// none of them.
pub open spec fn least_of(
    names: Seq<Seq<char>>,
    a: Set<Seq<char>>,
    b: Set<Seq<char>>,
    at: Map<Seq<char>, Order>,
    upto: int,
    found: Option<usize>,
) -> bool {
    match found {
        Some(first) => first < upto && differ_at(a, b, at, names[first as int]) && forall|j: int|
            0 <= j < upto && j != first && #[trigger] differ_at(a, b, at, names[j]) ==> before(
                names[first as int],
                names[j],
            ),
        None => forall|j: int| 0 <= j < upto ==> !#[trigger] differ_at(a, b, at, names[j]),
    }
}

/// With one more name, the first is the new name if the tables differ at
/// it and it comes before the first so far, and the first so far
/// otherwise.
proof fn lemma_least_grows(
    names: Seq<Seq<char>>,
    a: Set<Seq<char>>,
    b: Set<Seq<char>>,
    at: Map<Seq<char>, Order>,
    upto: int,
    found: Option<usize>,
)
    requires
        0 <= upto < names.len(),
        upto <= usize::MAX,
        forall|i: int, j: int| 0 <= i < names.len() && 0 <= j < names.len() && i != j ==> names[i]
            != names[j],
        least_of(names, a, b, at, upto, found),
    ensures
        least_of(
            names,
            a,
            b,
            at,
            upto + 1,
            if differ_at(a, b, at, names[upto]) && (found is None || before(
                names[upto],
                names[found->Some_0 as int],
            )) {
                Some(upto as usize)
            } else {
                found
            },
        ),
{
    if differ_at(a, b, at, names[upto]) {
        match found {
            None => {},
            Some(first) => {
                let k = names[upto];
                let o = names[first as int];
                lemma_text_one_way(k, o, 0);
                if order_text(k, o, 0) == Order::Equal {
                    lemma_text_equal(k, o, 0);
                }
                if before(k, o) {
                    assert forall|j: int|
                        0 <= j < upto + 1 && j != upto && #[trigger] differ_at(
                            a,
                            b,
                            at,
                            names[j],
                        ) implies before(k, names[j]) by {
                        if j != first {
                            lemma_text_chain(k, o, names[j], 0);
                        }
                    }
                }
            },
        }
    }
}

/// Tables that differ at none of their names are equal.
proof fn lemma_no_difference(left: &Members, right: &Members, at: Map<Seq<char>, Order>)
    requires
        left.wf(),
        right.wf(),
        least_of(left.keys(), left@.dom(), right@.dom(), at, left.keys().len() as int, None),
        least_of(
            right.keys(),
            right@.dom(),
            left@.dom(),
            all_equal(),
            right.keys().len() as int,
            None,
        ),
    ensures
        table_order(left@.dom(), right@.dom(), at) == Order::Equal,
{
    left.lemma_keys();
    right.lemma_keys();
    let a = left@.dom();
    let b = right@.dom();
    assert forall|k: Seq<char>| !#[trigger] differ_at(a, b, at, k) by {
        if a.contains(k) {
            assert(left.keys().contains(k));
            let j = choose|j: int| 0 <= j < left.keys().len() && left.keys()[j] == k;
            assert(!differ_at(a, b, at, left.keys()[j]));
        } else if b.contains(k) {
            assert(right.keys().contains(k));
            let j = choose|j: int| 0 <= j < right.keys().len() && right.keys()[j] == k;
            assert(!differ_at(b, a, all_equal(), right.keys()[j]));
        }
    }
    reveal(table_order);
}

/// The earlier of the first name of `left` at which the tables differ and
/// the first name of `right` alone is the first name at which the tables
/// differ.
proof fn lemma_first(
    left: &Members,
    right: &Members,
    at: Map<Seq<char>, Order>,
    in_left: Option<usize>,
    in_right: Option<usize>,
    least: Seq<char>,
)
    requires
        left.wf(),
        right.wf(),
        in_left is Some || in_right is Some,
        least_of(left.keys(), left@.dom(), right@.dom(), at, left.keys().len() as int, in_left),
        least_of(
            right.keys(),
            right@.dom(),
            left@.dom(),
            all_equal(),
            right.keys().len() as int,
            in_right,
        ),
        least == (if in_left is Some && (in_right is None || before(
            left.keys()[in_left->Some_0 as int],
            right.keys()[in_right->Some_0 as int],
        )) {
            left.keys()[in_left->Some_0 as int]
        } else {
            right.keys()[in_right->Some_0 as int]
        }),
    ensures
        first_difference(left@.dom(), right@.dom(), at, least),
{
    left.lemma_keys();
    right.lemma_keys();
    let a = left@.dom();
    let b = right@.dom();
    if in_left is Some && in_right is Some {
        let x = left.keys()[in_left->Some_0 as int];
        let y = right.keys()[in_right->Some_0 as int];
        assert(differ_at(b, a, all_equal(), y));
        assert(a.contains(x));
        lemma_text_one_way(x, y, 0);
        if order_text(x, y, 0) == Order::Equal {
            lemma_text_equal(x, y, 0);
        }
    }
    if in_right is Some {
        assert(differ_at(b, a, all_equal(), right.keys()[in_right->Some_0 as int]));
    }
    assert(differ_at(a, b, at, least));
    assert forall|k: Seq<char>| #[trigger] differ_at(a, b, at, k) && k != least implies before(
        least,
        k,
    ) by {
        if a.contains(k) {
            assert(left.keys().contains(k));
            let j = choose|j: int| 0 <= j < left.keys().len() && left.keys()[j] == k;
            assert(differ_at(a, b, at, left.keys()[j]));
            let x = left.keys()[in_left->Some_0 as int];
            if least != x && k != x {
                lemma_text_chain(least, x, k, 0);
            }
        } else {
            assert(right.keys().contains(k));
            let j = choose|j: int| 0 <= j < right.keys().len() && right.keys()[j] == k;
            assert(differ_at(b, a, all_equal(), right.keys()[j]));
            let y = right.keys()[in_right->Some_0 as int];
            if least != y && k != y {
                lemma_text_chain(least, y, k, 0);
            }
        }
    }
    reveal(first_difference);
}

/// There is one first difference at most, and it decides the order.
proof fn lemma_decided(
    a: Set<Seq<char>>,
    b: Set<Seq<char>>,
    at: Map<Seq<char>, Order>,
    least: Seq<char>,
)
    requires
        first_difference(a, b, at, least),
    ensures
        table_order(a, b, at) == order_at(a, b, at, least),
{
    let chosen = choose|k: Seq<char>| #[trigger] first_difference(a, b, at, k);
    reveal(first_difference);
    if chosen != least {
        assert(before(chosen, least));
        assert(before(least, chosen));
        lemma_text_one_way(chosen, least, 0);
    }
    reveal(table_order);
}

} // verus!
