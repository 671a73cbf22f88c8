//! How a value reads as text.
use vstd::prelude::*;
use super::machine::{Code, Machine, Piece, PieceView};
use super::state::{pieces_view, State};
use super::text::{
    date_pattern, decimal, integer_text, name_of_native, native_name, natural_text,
    timestamp_string, timestamp_text,
};
use super::value::Value;
use crate::compiler::object::FunctionObject;

verus! {

/// How deep arrays within arrays, and receivers within bound methods, are
/// followed when a value is rendered.
pub const RENDER_DEPTH: usize = 64;

impl Machine {
    /// The text of the string with handle `handle`; empty if there is none.
    pub open spec fn text_of(self, handle: usize) -> Seq<char> {
        if handle < self.strings.len() {
            self.strings[handle as int]
        } else {
            Seq::empty()
        }
    }

    /// Name of the function with index `function`; empty if there is none.
    pub open spec fn function_name(code: Code, function: usize) -> Seq<char> {
        if function < code.len() {
            code[function as int].name@
        } else {
            Seq::empty()
        }
    }

    /// Number of parameters of the function with index `function`; zero if
    /// there is none.
    pub open spec fn function_arity(code: Code, function: usize) -> int {
        if function < code.len() {
            code[function as int].arity as int
        } else {
            0
        }
    }

    /// Name of the class with handle `class`; empty if there is none.
    pub open spec fn class_name(self, class: usize) -> Seq<char> {
        if class < self.classes.len() {
            self.classes[class as int].name
        } else {
            Seq::empty()
        }
    }

    /// Name of the function of the closure with handle `closure`; empty if
    /// there is none.
    pub open spec fn method_name(self, code: Code, closure: usize) -> Seq<char> {
        if closure < self.closures.len() {
            Self::function_name(code, self.closures[closure as int].function)
        } else {
            Seq::empty()
        }
    }

    /// Text of one piece.
    pub open spec fn word(text: Seq<char>) -> Seq<PieceView> {
        seq![PieceView::Text(text)]
    }

    /// The pieces that a value reads as.  Arrays and receivers nested deeper
    /// than `depth` read as `...`.
    pub open spec fn render(self, code: Code, value: Value, depth: nat) -> Seq<PieceView>
        decreases depth, 0nat,
    {
        match value {
            Value::Float(bits) => seq![PieceView::Float(bits)],
            Value::Integer(number) => Self::word(decimal(number as int)),
            Value::String(handle) => Self::word(self.text_of(handle)),
            Value::Boolean(truth) => Self::word(
                if truth {
                    "true"@
                } else {
                    "false"@
                },
            ),
            Value::Array(handle) => if handle < self.arrays.len() && depth > 0 {
                Self::word("["@) + self.render_items(
                    code,
                    self.arrays[handle as int],
                    0,
                    (depth - 1) as nat,
                ) + Self::word("]"@)
            } else {
                Self::word("..."@)
            },
            Value::Function(function) => if function < code.len() {
                Self::word("function "@) + Self::word(code[function as int].name@) + Self::word(
                    " param_len="@,
                ) + Self::word(decimal(code[function as int].arity as int))
            } else {
                Self::word("function"@)
            },
            Value::Closure(handle) => if handle < self.closures.len() {
                Self::word("closure "@) + Self::word(
                    Self::function_name(code, self.closures[handle as int].function),
                ) + Self::word(" param_len="@) + Self::word(
                    decimal(Self::function_arity(code, self.closures[handle as int].function)),
                ) + Self::word(" upvalue_len="@) + Self::word(
                    decimal(self.closures[handle as int].upvalues.len() as int),
                )
            } else {
                Self::word("closure"@)
            },
            Value::Native(function) => Self::word("native function "@) + Self::word(
                native_name(function),
            ),
            Value::DateTime(stamp) => match timestamp_text(
                stamp.seconds,
                stamp.nanos,
                stamp.offset,
                date_pattern(),
            ) {
                Some(text) => Self::word(text),
                None => Self::word("date"@),
            },
            Value::Class(handle) => Self::word("class "@) + Self::word(self.class_name(handle)),
            Value::Instance(handle) => if handle < self.instances.len() {
                Self::word("instance <- class "@) + Self::word(
                    self.class_name(self.instances[handle as int].class),
                )
            } else {
                Self::word("instance"@)
            },
            Value::BoundMethod(handle) => if handle < self.bound_methods.len() && depth > 0 {
                Self::word("method reciever: "@) + self.render(
                    code,
                    self.bound_methods[handle as int].reciever,
                    (depth - 1) as nat,
                ) + Self::word(", name: "@) + Self::word(
                    self.method_name(code, self.bound_methods[handle as int].method),
                )
            } else {
                Self::word("..."@)
            },
            Value::Null => Self::word("null"@),
        }
    }

    /// The pieces of the items from position `from` on, separated by commas.
    pub open spec fn render_items(
        self,
        code: Code,
        items: Seq<Value>,
        from: int,
        depth: nat,
    ) -> Seq<
        PieceView,
    >
        decreases depth, items.len() - from + 1,
    {
        if from < 0 || from >= items.len() {
            Seq::empty()
        } else {
            (if from > 0 {
                Self::word(", "@)
            } else {
                Seq::empty()
            }) + self.render(code, items[from], depth) + self.render_items(
                code,
                items,
                from + 1,
                depth,
            )
        }
    }
}

fn word(out: &mut Vec<Piece>, text: String)
    ensures
        pieces_view(final(out)@) == pieces_view(old(out)@) + Machine::word(text@),
{
    out.push(Piece::Text(text));
    assert(pieces_view(out@) =~= pieces_view(old(out)@) + Machine::word(text@));
}

fn literal(out: &mut Vec<Piece>, text: &'static str)
    ensures
        pieces_view(final(out)@) == pieces_view(old(out)@) + Machine::word(text@),
{
    word(out, String::from_str(text));
}

impl State {
    /// Appends to `out` the pieces that `value` reads as.
    pub fn render_into(
        &self,
        code: &Vec<FunctionObject>,
        value: Value,
        depth: usize,
        out: &mut Vec<Piece>,
    )
        ensures
            pieces_view(final(out)@) == pieces_view(old(out)@) + self@.render(
                code@,
                value,
                depth as nat,
            ),
        decreases depth, 0nat,
    {
        let ghost start = pieces_view(out@);
        match value {
            Value::Float(bits) => {
                out.push(Piece::Float(bits));
                assert(pieces_view(out@) =~= start + seq![PieceView::Float(bits)]);
            },
            Value::Integer(number) => {
                word(out, integer_text(number));
            },
            Value::String(handle) => {
                if handle < self.strings.len() {
                    word(out, self.strings[handle].clone());
                } else {
                    word(out, String::new());
                }
            },
            Value::Boolean(truth) => {
                if truth {
                    literal(out, "true");
                } else {
                    literal(out, "false");
                }
            },
            Value::Array(handle) => {
                if handle < self.arrays.len() && depth > 0 {
                    literal(out, "[");
                    self.render_items_into(code, handle, depth - 1, out);
                    literal(out, "]");
                    assert(pieces_view(out@) =~= start + self@.render(code@, value, depth as nat));
                } else {
                    literal(out, "...");
                }
            },
            Value::Function(function) => {
                if function < code.len() {
                    literal(out, "function ");
                    word(out, code[function].name.clone());
                    literal(out, " param_len=");
                    word(out, integer_text(code[function].arity as i64));
                    assert(pieces_view(out@) =~= start + self@.render(code@, value, depth as nat));
                } else {
                    literal(out, "function");
                }
            },
            Value::Closure(handle) => {
                if handle < self.closures.len() {
                    literal(out, "closure ");
                    let function: usize = self.closures[handle].function;
                    if function < code.len() {
                        word(out, code[function].name.clone());
                        literal(out, " param_len=");
                        word(out, integer_text(code[function].arity as i64));
                    } else {
                        word(out, String::new());
                        literal(out, " param_len=");
                        word(out, integer_text(0));
                    }
                    literal(out, " upvalue_len=");
                    word(out, natural_text(self.closures[handle].upvalues.len()));
                    assert(pieces_view(out@) =~= start + self@.render(code@, value, depth as nat));
                } else {
                    literal(out, "closure");
                }
            },
            Value::Native(function) => {
                literal(out, "native function ");
                word(out, name_of_native(function));
                assert(pieces_view(out@) =~= start + self@.render(code@, value, depth as nat));
            },
            Value::DateTime(stamp) => {
                proof {
                    reveal_strlit("%Y/%m/%d %H:%M:%S.%6f");
                }
                match timestamp_string(stamp, "%Y/%m/%d %H:%M:%S.%6f") {
                    Some(text) => {
                        word(out, text);
                    },
                    None => {
                        literal(out, "date");
                    },
                }
            },
            Value::Class(handle) => {
                literal(out, "class ");
                if handle < self.classes.len() {
                    word(out, self.classes[handle].name.clone());
                } else {
                    word(out, String::new());
                }
                assert(pieces_view(out@) =~= start + self@.render(code@, value, depth as nat));
            },
            Value::Instance(handle) => {
                if handle < self.instances.len() {
                    literal(out, "instance <- class ");
                    let class: usize = self.instances[handle].class;
                    if class < self.classes.len() {
                        word(out, self.classes[class].name.clone());
                    } else {
                        word(out, String::new());
                    }
                    assert(pieces_view(out@) =~= start + self@.render(code@, value, depth as nat));
                } else {
                    literal(out, "instance");
                }
            },
            Value::BoundMethod(handle) => {
                if handle < self.bound_methods.len() && depth > 0 {
                    let bound = self.bound_methods[handle];
                    literal(out, "method reciever: ");
                    self.render_into(code, bound.reciever, depth - 1, out);
                    literal(out, ", name: ");
                    if bound.method < self.closures.len() && self.closures[bound.method].function
                        < code.len() {
                        word(out, code[self.closures[bound.method].function].name.clone());
                    } else {
                        word(out, String::new());
                    }
                    assert(pieces_view(out@) =~= start + self@.render(code@, value, depth as nat));
                } else {
                    literal(out, "...");
                }
            },
            Value::Null => {
                literal(out, "null");
            },
        }
    }

    /// Appends to `out` the pieces of the items of the array `handle`,
    /// separated by commas.
    fn render_items_into(
        &self,
        code: &Vec<FunctionObject>,
        handle: usize,
        depth: usize,
        out: &mut Vec<Piece>,
    )
        requires
            handle < self.arrays@.len(),
        ensures
            pieces_view(final(out)@) == pieces_view(old(out)@) + self@.render_items(
                code@,
                self@.arrays[handle as int],
                0,
                depth as nat,
            ),
        decreases depth, 1nat,
    {
        let ghost start = pieces_view(out@);
        let ghost items = self@.arrays[handle as int];
        let count: usize = self.arrays[handle].len();
        let mut index: usize = 0;
        assert(start + self@.render_items(code@, items, 0, depth as nat) =~= start
            + Seq::<PieceView>::empty() + self@.render_items(code@, items, 0, depth as nat));
        let ghost mut done: Seq<PieceView> = Seq::empty();
        while index < count
            invariant
                handle < self.arrays@.len(),
                items == self@.arrays[handle as int],
                items == self.arrays@[handle as int]@,
                count == items.len(),
                index <= count,
                pieces_view(out@) == start + done,
                self@.render_items(code@, items, 0, depth as nat) == done + self@.render_items(
                    code@,
                    items,
                    index as int,
                    depth as nat,
                ),
            decreases count - index,
        {
            let ghost before = pieces_view(out@);
            if index > 0 {
                literal(out, ", ");
            }
            let item: Value = self.arrays[handle][index];
            self.render_into(code, item, depth, out);
            proof {
                let separator = if index > 0 {
                    Machine::word(", "@)
                } else {
                    Seq::<PieceView>::empty()
                };
                let part = separator + self@.render(code@, items[index as int], depth as nat);
                assert(pieces_view(out@) =~= start + (done + part));
                assert(done + (part + self@.render_items(
                    code@,
                    items,
                    index + 1,
                    depth as nat,
                )) =~= (done + part) + self@.render_items(code@, items, index + 1, depth as nat));
                done = done + part;
            }
            index += 1;
        }
        assert(done + Seq::<PieceView>::empty() =~= done);
    }

    /// The pieces that `value` reads as.
    pub fn render(&self, code: &Vec<FunctionObject>, value: Value) -> (r: Vec<Piece>)
        ensures
            pieces_view(r@) == self@.render(code@, value, RENDER_DEPTH as nat),
    {
        let mut out: Vec<Piece> = Vec::new();
        self.render_into(code, value, RENDER_DEPTH, &mut out);
        assert(pieces_view(out@) =~= self@.render(code@, value, RENDER_DEPTH as nat));
        out
    }
}

} // verus!
