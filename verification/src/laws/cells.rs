//! Upvalue cells are shared, and closing them changes nothing that a closure
//! can see.
use vstd::prelude::*;
use crate::compiler::object::UpvalueObject;
use crate::vm::calls::{cell_of, op_get_upvalue, op_set_upvalue};
use crate::vm::machine::{Code, Fault, Machine};
use crate::vm::value::Value;

verus! {

/// Before the position where `seek` stops, no cell of the list is open at
/// `slot` or below.
proof fn lemma_seek(m: Machine, slot: usize, from: int)
    requires
        0 <= from <= m.open.len(),
    ensures
        from <= m.seek(slot, from) <= m.open.len(),
        forall|i: int|
            from <= i < m.seek(slot, from) ==> !(m.location(#[trigger] m.open[i]) matches Some(
                place,
            ) && place <= slot),
        m.seek(slot, from) < m.open.len() ==> (m.location(m.open[m.seek(slot, from)]) matches Some(
            place,
        ) && place <= slot),
    decreases m.open.len() - from,
{
    if from < m.open.len() {
        lemma_seek(m, slot, from + 1);
    }
}

/// `seek` stops at `at` if no cell before `at` is open at `slot` or below
/// and the cell at `at` is.
proof fn lemma_seek_stops(m: Machine, slot: usize, from: int, at: int)
    requires
        0 <= from <= at < m.open.len(),
        forall|i: int|
            from <= i < at ==> !(m.location(#[trigger] m.open[i]) matches Some(place) && place
                <= slot),
        m.location(m.open[at]) matches Some(place) && place <= slot,
    ensures
        m.seek(slot, from) == at,
    decreases at - from,
{
    if from < at {
        assert(!(m.location(m.open[from]) matches Some(place) && place <= slot));
        lemma_seek_stops(m, slot, from + 1, at);
    }
}

/// The list of open cells is in order: every cell in it is open, and the
/// cells stand by their slots, the highest first, no slot twice.
pub open spec fn in_order(m: Machine) -> bool {
    &&& forall|i: int| 0 <= i < m.open.len() ==> (#[trigger] m.location(m.open[i])) is Some
    &&& forall|i: int, j: int|
        0 <= i < j < m.open.len() ==> m.location(#[trigger] m.open[i])->Some_0 > m.location(
            #[trigger] m.open[j],
        )->Some_0
}

proof fn lemma_seek_finds(m: Machine, slot: usize, from: int, at: int)
    requires
        in_order(m),
        0 <= from <= at < m.open.len(),
        m.location(m.open[at]) == Some(slot),
    ensures
        m.seek(slot, from) == at,
    decreases at - from,
{
    if from < at {
        assert(m.location(m.open[from])->Some_0 > m.location(m.open[at])->Some_0);
        lemma_seek_finds(m, slot, from + 1, at);
    }
}

/// While the list of open cells is in order, capturing a slot that has an
/// open cell gives that cell, wherever it stands in the list, and changes
/// nothing: all closures that capture one slot hold one cell.
pub proof fn lemma_capture_finds(m: Machine, slot: usize, at: int)
    requires
        in_order(m),
        0 <= at < m.open.len(),
        m.location(m.open[at]) == Some(slot),
    ensures
        m.capture(slot) == (m, m.open[at]),
{
    reveal(Machine::capture);
    lemma_seek_finds(m, slot, 0, at);
}

proof fn lemma_seek_walks(m: Machine, slot: usize, from: int)
    requires
        in_order(m),
        0 <= from <= m.open.len(),
    ensures
        from <= m.seek(slot, from) <= m.open.len(),
        forall|i: int|
            from <= i < m.seek(slot, from) ==> (#[trigger] m.location(m.open[i]))->Some_0 > slot,
        m.seek(slot, from) < m.open.len() ==> m.location(m.open[m.seek(slot, from)])->Some_0
            <= slot,
    decreases m.open.len() - from,
{
    if from < m.open.len() {
        assert(m.location(m.open[from]) is Some);
        if m.location(m.open[from])->Some_0 > slot {
            lemma_seek_walks(m, slot, from + 1);
        }
    }
}

/// Capturing a slot keeps the list of open cells in order: a new cell is
/// put where its slot belongs.
pub proof fn lemma_capture_keeps_order(m: Machine, slot: usize)
    requires
        in_order(m),
        m.upvalues.len() <= usize::MAX,
    ensures
        in_order(m.capture(slot).0),
{
    reveal(Machine::capture);
    lemma_seek_walks(m, slot, 0);
    let at = m.seek(slot, 0);
    if !(at < m.open.len() && m.location(m.open[at]) == Some(slot)) {
        let cell = m.upvalues.len() as usize;
        let after = m.capture(slot).0;
        m.open.insert_ensures(at, cell);
        assert forall|i: int| 0 <= i < after.open.len() implies (#[trigger] after.location(
            after.open[i],
        )) == if i < at {
            m.location(m.open[i])
        } else if i == at {
            Some(slot)
        } else {
            m.location(m.open[i - 1])
        } by {
            if i < at {
                assert(m.location(m.open[i]) is Some);
            } else if i > at {
                assert(after.open[i] == m.open[i - 1]);
                assert(m.location(m.open[i - 1]) is Some);
            }
        }
        assert forall|i: int, j: int| 0 <= i < j < after.open.len() implies after.location(
            #[trigger] after.open[i],
        )->Some_0 > after.location(#[trigger] after.open[j])->Some_0 by {
            assert(after.location(after.open[i]) is Some);
            assert(after.location(after.open[j]) is Some);
            if j < at {
                assert(m.location(m.open[i])->Some_0 > m.location(m.open[j])->Some_0);
            } else if j == at {
                assert(m.location(m.open[i])->Some_0 > slot);
            } else if i < at {
                assert(m.location(m.open[i])->Some_0 > m.location(m.open[j - 1])->Some_0);
            } else if i == at {
                if j - 1 > at {
                    assert(m.location(m.open[at])->Some_0 > m.location(m.open[j - 1])->Some_0);
                }
            } else {
                assert(m.location(m.open[i - 1])->Some_0 > m.location(m.open[j - 1])->Some_0);
            }
        }
    }
}

/// The cells that `list` names from `from` on are open and stand by their
/// slots, the highest first; so do the cells that `kept` names, and all of
/// those stand above all of these.
spec fn closing_in_order(m: Machine, list: Seq<usize>, from: int, kept: Seq<usize>) -> bool {
    &&& forall|i: int| from <= i < list.len() ==> (#[trigger] m.location(list[i])) is Some
    &&& forall|i: int, j: int|
        from <= i < j < list.len() ==> m.location(#[trigger] list[i])->Some_0 > m.location(
            #[trigger] list[j],
        )->Some_0
    &&& forall|k: int| 0 <= k < kept.len() ==> (#[trigger] m.location(kept[k])) is Some
    &&& forall|k: int, l: int|
        0 <= k < l < kept.len() ==> m.location(#[trigger] kept[k])->Some_0 > m.location(
            #[trigger] kept[l],
        )->Some_0
    &&& forall|k: int, i: int|
        0 <= k < kept.len() && from <= i < list.len() ==> m.location(
            #[trigger] kept[k],
        )->Some_0 > m.location(#[trigger] list[i])->Some_0
}

proof fn lemma_close_from_keeps_order(
    m: Machine,
    list: Seq<usize>,
    from_slot: usize,
    from: int,
    kept: Seq<usize>,
)
    requires
        0 <= from <= list.len(),
        closing_in_order(m, list, from, kept),
    ensures
        in_order(m.close_from(list, from_slot, from, kept)),
    decreases list.len() - from,
{
    if from >= list.len() {
        let after = Machine { open: kept, ..m };
        assert forall|i: int| 0 <= i < after.open.len() implies (#[trigger] after.location(
            after.open[i],
        )) is Some by {
            assert(m.location(kept[i]) is Some);
        }
        assert forall|i: int, j: int| 0 <= i < j < after.open.len() implies after.location(
            #[trigger] after.open[i],
        )->Some_0 > after.location(#[trigger] after.open[j])->Some_0 by {
            assert(m.location(kept[i])->Some_0 > m.location(kept[j])->Some_0);
        }
    } else {
        assert(m.location(list[from]) is Some);
        let place = m.location(list[from])->Some_0;
        if place >= from_slot {
            let next = Machine {
                upvalues: m.upvalues.update(
                    list[from] as int,
                    UpvalueObject { location: None, closed: Some(m.stack_value(place)) },
                ),
                ..m
            };
            assert forall|h: usize| h != list[from] implies #[trigger] next.location(h)
                == m.location(h) by {}
            assert forall|i: int| from + 1 <= i < list.len() implies list[i] != list[from] by {
                assert(m.location(list[from])->Some_0 > m.location(list[i])->Some_0);
            }
            assert forall|k: int| 0 <= k < kept.len() implies kept[k] != list[from] by {
                assert(m.location(kept[k])->Some_0 > m.location(list[from])->Some_0);
            }
            assert(closing_in_order(next, list, from + 1, kept)) by {
                assert forall|i: int| from + 1 <= i < list.len() implies (#[trigger] next.location(
                    list[i],
                )) is Some by {
                    assert(m.location(list[i]) is Some);
                }
                assert forall|i: int, j: int| from + 1 <= i < j < list.len() implies next.location(
                    #[trigger] list[i],
                )->Some_0 > next.location(#[trigger] list[j])->Some_0 by {
                    assert(m.location(list[i])->Some_0 > m.location(list[j])->Some_0);
                }
                assert forall|k: int| 0 <= k < kept.len() implies (#[trigger] next.location(
                    kept[k],
                )) is Some by {
                    assert(m.location(kept[k]) is Some);
                }
                assert forall|k: int, l: int| 0 <= k < l < kept.len() implies next.location(
                    #[trigger] kept[k],
                )->Some_0 > next.location(#[trigger] kept[l])->Some_0 by {
                    assert(m.location(kept[k])->Some_0 > m.location(kept[l])->Some_0);
                }
                assert forall|k: int, i: int|
                    0 <= k < kept.len() && from + 1 <= i < list.len() implies next.location(
                    #[trigger] kept[k],
                )->Some_0 > next.location(#[trigger] list[i])->Some_0 by {
                    assert(m.location(kept[k])->Some_0 > m.location(list[i])->Some_0);
                }
            }
            lemma_close_from_keeps_order(next, list, from_slot, from + 1, kept);
        } else {
            let more = kept.push(list[from]);
            assert(closing_in_order(m, list, from + 1, more)) by {
                assert forall|k: int| 0 <= k < more.len() implies (#[trigger] m.location(
                    more[k],
                )) is Some by {
                    if k < kept.len() {
                        assert(m.location(kept[k]) is Some);
                    }
                }
                assert forall|k: int, l: int| 0 <= k < l < more.len() implies m.location(
                    #[trigger] more[k],
                )->Some_0 > m.location(#[trigger] more[l])->Some_0 by {
                    if l < kept.len() {
                        assert(m.location(kept[k])->Some_0 > m.location(kept[l])->Some_0);
                    } else {
                        assert(m.location(kept[k])->Some_0 > m.location(list[from])->Some_0);
                    }
                }
                assert forall|k: int, i: int|
                    0 <= k < more.len() && from + 1 <= i < list.len() implies m.location(
                    #[trigger] more[k],
                )->Some_0 > m.location(#[trigger] list[i])->Some_0 by {
                    if k < kept.len() {
                        assert(m.location(kept[k])->Some_0 > m.location(list[i])->Some_0);
                    } else {
                        assert(m.location(list[from])->Some_0 > m.location(list[i])->Some_0);
                    }
                }
            }
            lemma_close_from_keeps_order(m, list, from_slot, from + 1, more);
        }
    }
}

/// Closing cells keeps the list of open cells in order.
pub proof fn lemma_close_keeps_order(m: Machine, from_slot: usize)
    requires
        in_order(m),
    ensures
        in_order(m.close_upvalues(from_slot)),
{
    reveal(Machine::close_upvalues);
    assert(closing_in_order(m, m.open, 0, Seq::empty()));
    lemma_close_from_keeps_order(m, m.open, from_slot, 0, Seq::empty());
}

/// Two closures that capture the same stack slot share one cell: capturing a
/// slot a second time gives the cell of the first time and changes nothing.
pub proof fn lemma_capture_shares(m: Machine, slot: usize)
    requires
        m.upvalues.len() < usize::MAX,
        forall|i: int| 0 <= i < m.open.len() ==> #[trigger] m.open[i] < m.upvalues.len(),
    ensures
        m.capture(slot).0.capture(slot) == (m.capture(slot).0, m.capture(slot).1),
{
    reveal(Machine::capture);
    let at = m.seek(slot, 0);
    lemma_seek(m, slot, 0);
    let first = m.capture(slot).0;
    if at < m.open.len() && m.location(m.open[at]) == Some(slot) {
        assert(first == m);
    } else {
        let cell = m.upvalues.len() as usize;
        assert(first.open == m.open.insert(at, cell));
        assert(first.upvalues == m.upvalues.push(
            UpvalueObject { location: Some(slot), closed: None },
        ));
        assert(first.location(cell) == Some(slot));
        assert forall|i: int| 0 <= i < at implies !(first.location(
            #[trigger] first.open[i],
        ) matches Some(place) && place <= slot) by {
            assert(first.open[i] == m.open[i]);
            assert(m.open[i] < m.upvalues.len());
            assert(first.location(first.open[i]) == m.location(m.open[i]));
        }
        assert(first.open[at] == cell);
        lemma_seek_stops(first, slot, 0, at);
    }
}

/// What is written through a cell is what reading through it gives, whether
/// the cell is open or closed.
pub proof fn lemma_write_then_read(m: Machine, cell: usize, value: Value)
    ensures
        m.write_cell(cell, value) matches Ok(after) ==> after.read_cell(cell) == Ok::<_, Fault>(
            value,
        ),
{
    reveal(Machine::write_cell);
    reveal(Machine::set_slot);
}

/// The operand of the instruction whose opcode was read last.
pub open spec fn operand(code: Code, f: usize, m: Machine) -> int {
    code[f as int].chunk.code@[m.frame().ip as int] as int
}

/// What one closure stores through an upvalue, every closure that holds
/// the same cell loads.  The instruction that stores leaves the cell that
/// its operand names reading as the value on top of the stack, and once the
/// cell is closed it leaves the stack alone.  The instruction that loads
/// pushes what the cell that its operand names reads as, whichever closure
/// runs it, and changes no cell.
pub proof fn lemma_upvalue_instructions_share(
    code: Code,
    f: usize,
    m: Machine,
    g: usize,
    n: Machine,
)
    ensures
        op_set_upvalue(code, f, m) matches Ok((after, _)) ==> cell_of(
            m,
            operand(code, f, m),
        ) matches Ok(cell) && after.read_cell(cell) == Ok::<_, Fault>(m.stack.last()) && (
        !m.upvalues[cell as int].is_open() ==> after.stack == m.stack),
        op_get_upvalue(code, g, n) matches Ok((after, _)) ==> cell_of(
            n,
            operand(code, g, n),
        ) matches Ok(cell) && n.read_cell(cell) matches Ok(value) && after.stack == n.stack.push(
            value,
        ) && after.upvalues == n.upvalues,
{
    reveal(op_set_upvalue);
    reveal(op_get_upvalue);
    reveal(Machine::read_byte);
    reveal(Machine::write_cell);
    reveal(Machine::set_slot);
    reveal(Machine::push);
    match m.read_byte(code, f) {
        Ok((m1, index)) => {
            match cell_of(m1, index as int) {
                Ok(cell) => {
                    lemma_write_then_read(m1, cell, m.stack.last());
                },
                Err(_) => {},
            }
        },
        Err(_) => {},
    }
}

/// Once a cell is closed its slot may be overwritten: what the cell reads
/// as does not depend on the stack.
pub proof fn lemma_closed_ignores_stack(m: Machine, cell: usize, stack: Seq<Value>)
    requires
        cell < m.upvalues.len(),
        !m.upvalues[cell as int].is_open(),
    ensures
        (Machine { stack, ..m }).read_cell(cell) == m.read_cell(cell),
{
}

proof fn lemma_close_from_keeps(
    m: Machine,
    list: Seq<usize>,
    from_slot: usize,
    from: int,
    kept: Seq<usize>,
    cell: usize,
)
    requires
        0 <= from,
        m.read_cell(cell) is Ok,
    ensures
        m.close_from(list, from_slot, from, kept).read_cell(cell) == m.read_cell(cell),
        m.close_from(list, from_slot, from, kept).upvalues.len() == m.upvalues.len(),
        forall|h: int|
            0 <= h < m.upvalues.len() && !(#[trigger] m.upvalues[h]).is_open() ==> m.close_from(
                list,
                from_slot,
                from,
                kept,
            ).upvalues[h] == m.upvalues[h],
        forall|h: int|
            0 <= h < m.upvalues.len() ==> ((#[trigger] m.close_from(
                list,
                from_slot,
                from,
                kept,
            ).upvalues[h]).is_open() ==> m.upvalues[h].is_open()),
        m.close_from(list, from_slot, from, kept).stack == m.stack,
    decreases list.len() - from,
{
    if from < list.len() {
        match m.location(list[from]) {
            Some(place) => {
                if place >= from_slot {
                    let next = Machine {
                        upvalues: m.upvalues.update(
                            list[from] as int,
                            UpvalueObject { location: None, closed: Some(m.stack_value(place)) },
                        ),
                        ..m
                    };
                    assert(next.read_cell(cell) == m.read_cell(cell));
                    lemma_close_from_keeps(next, list, from_slot, from + 1, kept, cell);
                    let after = m.close_from(list, from_slot, from, kept);
                    assert(after == next.close_from(list, from_slot, from + 1, kept));
                    assert forall|h: int|
                        0 <= h < m.upvalues.len() && !(#[trigger] m.upvalues[h]).is_open() implies after.upvalues[h]
                        == m.upvalues[h] by {
                        assert(next.upvalues[h] == m.upvalues[h]);
                        assert(!next.upvalues[h].is_open());
                    }
                    assert forall|h: int|
                        0 <= h < m.upvalues.len() && (#[trigger] after.upvalues[h]).is_open() implies m.upvalues[h].is_open() by {
                        assert(next.upvalues[h].is_open());
                    }
                } else {
                    lemma_close_from_keeps(
                        m,
                        list,
                        from_slot,
                        from + 1,
                        kept.push(list[from]),
                        cell,
                    );
                }
            },
            None => {
                lemma_close_from_keeps(m, list, from_slot, from + 1, kept, cell);
            },
        }
    }
}

/// Closing cells changes nothing that can be read through a cell: a cell
/// that is closed takes over the value of its slot, and every other cell
/// reads as before.  No closed cell opens again.
pub proof fn lemma_close_keeps_values(m: Machine, from_slot: usize, cell: usize)
    requires
        m.read_cell(cell) is Ok,
    ensures
        m.close_upvalues(from_slot).read_cell(cell) == m.read_cell(cell),
        m.close_upvalues(from_slot).upvalues.len() == m.upvalues.len(),
        forall|h: int|
            0 <= h < m.upvalues.len() && !(#[trigger] m.upvalues[h]).is_open()
                ==> m.close_upvalues(from_slot).upvalues[h] == m.upvalues[h],
{
    reveal(Machine::close_upvalues);
    lemma_close_from_keeps(m, m.open, from_slot, 0, Seq::empty(), cell);
}

/// Closing cells opens none, and leaves the stack, the frames and the
/// closures alone.
pub proof fn lemma_close_keeps_cells(m: Machine, from_slot: usize)
    ensures
        m.close_upvalues(from_slot).upvalues.len() == m.upvalues.len(),
        forall|h: int|
            0 <= h < m.upvalues.len() && !(#[trigger] m.upvalues[h]).is_open()
                ==> !m.close_upvalues(from_slot).upvalues[h].is_open(),
        m.close_upvalues(from_slot).stack == m.stack,
        m.close_upvalues(from_slot).frames == m.frames,
        m.close_upvalues(from_slot).closures == m.closures,
{
    reveal(Machine::close_upvalues);
    lemma_close_from_frame(m, m.open, from_slot, 0, Seq::empty());
}

proof fn lemma_close_from_frame(
    m: Machine,
    list: Seq<usize>,
    from_slot: usize,
    from: int,
    kept: Seq<usize>,
)
    requires
        0 <= from,
    ensures
        m.close_from(list, from_slot, from, kept).upvalues.len() == m.upvalues.len(),
        forall|h: int|
            0 <= h < m.upvalues.len() && !(#[trigger] m.upvalues[h]).is_open() ==> !m.close_from(
                list,
                from_slot,
                from,
                kept,
            ).upvalues[h].is_open(),
        m.close_from(list, from_slot, from, kept).stack == m.stack,
        m.close_from(list, from_slot, from, kept).frames == m.frames,
        m.close_from(list, from_slot, from, kept).closures == m.closures,
    decreases list.len() - from,
{
    if from < list.len() {
        match m.location(list[from]) {
            Some(place) => {
                if place >= from_slot {
                    let next = Machine {
                        upvalues: m.upvalues.update(
                            list[from] as int,
                            UpvalueObject { location: None, closed: Some(m.stack_value(place)) },
                        ),
                        ..m
                    };
                    lemma_close_from_frame(next, list, from_slot, from + 1, kept);
                    let after = m.close_from(list, from_slot, from, kept);
                    assert forall|h: int|
                        0 <= h < m.upvalues.len() && !(#[trigger] m.upvalues[h]).is_open() implies !after.upvalues[h].is_open() by {
                        assert(!next.upvalues[h].is_open());
                    }
                } else {
                    lemma_close_from_frame(m, list, from_slot, from + 1, kept.push(list[from]));
                }
            },
            None => {
                lemma_close_from_frame(m, list, from_slot, from + 1, kept);
            },
        }
    }
}

/// Two closures that captured the same slot see each other's writes, while
/// the slot is live and after it has gone out of scope: they hold the same
/// cell, what one writes the other reads, and closing the cell keeps the
/// value.
pub proof fn lemma_upvalues_are_shared(m: Machine, slot: usize, value: Value, from_slot: usize)
    requires
        m.upvalues.len() < usize::MAX,
        forall|i: int| 0 <= i < m.open.len() ==> #[trigger] m.open[i] < m.upvalues.len(),
    ensures
        ({
            let (captured, first) = m.capture(slot);
            let (again, second) = captured.capture(slot);
            &&& first == second
            &&& again == captured
            &&& captured.write_cell(first, value) matches Ok(written) ==> {
                &&& written.read_cell(second) == Ok::<_, Fault>(value)
                &&& written.close_upvalues(from_slot).read_cell(second) == Ok::<_, Fault>(value)
            }
        }),
{
    lemma_capture_shares(m, slot);
    let (captured, first) = m.capture(slot);
    lemma_write_then_read(captured, first, value);
    match captured.write_cell(first, value) {
        Ok(written) => {
            lemma_close_keeps_values(written, from_slot, first);
        },
        Err(_) => {},
    }
}

} // verus!
