//! Address assignment: every line is paired with the index of the next
//! instruction word at that point of the program.

use vstd::prelude::*;
use vstd::wrapping::i16_specs;
use crate::line::{Line, LineView};

verus! {

/// A line together with the address assigned to it.
#[derive(Debug, PartialEq, Eq)]
pub struct AddressedLine {
    pub line: Line,
    pub address: i16,
}

/// What an [`AddressedLine`] denotes.
pub struct AddressedLineView {
    pub line: LineView,
    pub address: i16,
}

impl View for AddressedLine {
    type V = AddressedLineView;

    open spec fn view(&self) -> AddressedLineView {
        AddressedLineView { line: self.line@, address: self.address }
    }
}

impl DeepView for AddressedLine {
    type V = AddressedLineView;

    open spec fn deep_view(&self) -> AddressedLineView {
        self.view()
    }
}

impl Clone for AddressedLine {
    fn clone(&self) -> (copy: AddressedLine)
        ensures
            copy == *self,
    {
        AddressedLine { line: self.line.clone(), address: self.address }
    }
}

/// The number of instruction lines in `lines`.
pub open spec fn instruction_count(lines: Seq<LineView>) -> nat
    decreases lines.len(),
{
    if lines.len() == 0 {
        0
    } else {
        instruction_count(lines.drop_last()) + if lines.last() is Instruction {
            1nat
        } else {
            0nat
        }
    }
}

/// The signed sixteen-bit value congruent to `n` modulo 65536.
pub open spec fn wrap_i16(n: int) -> i16 {
    let low = n % 0x1_0000;
    if low > i16::MAX {
        (low - 0x1_0000) as i16
    } else {
        low as i16
    }
}

/// The address of line `i`: the number of instructions before it, in sixteen
/// bits.
pub open spec fn address_at(lines: Seq<LineView>, i: int) -> i16 {
    wrap_i16(instruction_count(lines.take(i)) as int)
}

/// Every line of `lines`, in order, with its address.
pub open spec fn addressed(lines: Seq<LineView>) -> Seq<AddressedLineView> {
    Seq::new(
        lines.len(),
        |i: int| AddressedLineView { line: lines[i], address: address_at(lines, i) },
    )
}

/// Counting one line further adds one for an instruction and nothing for a
/// label definition.
pub proof fn lemma_instruction_count_step(lines: Seq<LineView>, i: int)
    requires
        0 <= i < lines.len(),
    ensures
        lines[i] is Instruction ==> instruction_count(lines.take(i + 1)) == instruction_count(
            lines.take(i),
        ) + 1,
        lines[i] is LabelDefinition ==> instruction_count(lines.take(i + 1)) == instruction_count(
            lines.take(i),
        ),
{
    assert(lines.take(i + 1).drop_last() == lines.take(i));
}

/// A prefix holds no more instructions than the whole, and the whole no
/// more than it has lines.
pub proof fn lemma_instruction_count_monotonic(lines: Seq<LineView>, i: int)
    requires
        0 <= i <= lines.len(),
    ensures
        instruction_count(lines.take(i)) <= i,
        instruction_count(lines.take(i)) <= instruction_count(lines) <= lines.len(),
    decreases lines.len(),
{
    if lines.len() == 0 || i == lines.len() {
        assert(lines.take(i) == lines);
        if lines.len() > 0 {
            lemma_instruction_count_monotonic(lines.drop_last(), i - 1);
        }
    } else {
        assert(lines.drop_last().take(i) == lines.take(i));
        lemma_instruction_count_monotonic(lines.drop_last(), i);
    }
}

/// The address of an instruction line is below the number of instructions
/// of the program, counted without wrapping.
pub proof fn lemma_instruction_is_counted(lines: Seq<LineView>, i: int)
    requires
        0 <= i < lines.len(),
        lines[i] is Instruction,
    ensures
        instruction_count(lines.take(i)) < instruction_count(lines),
{
    lemma_instruction_count_step(lines, i);
    lemma_instruction_count_monotonic(lines, i + 1);
}

/// Every number below the instruction count is the address, counted
/// without wrapping, of exactly one instruction line; the lemma returns
/// that line's index.
pub proof fn lemma_instruction_at(lines: Seq<LineView>, a: int) -> (i: int)
    requires
        0 <= a < instruction_count(lines),
    ensures
        0 <= i < lines.len(),
        lines[i] is Instruction,
        instruction_count(lines.take(i)) == a,
        forall|j: int|
            0 <= j < lines.len() && lines[j] is Instruction && instruction_count(
                #[trigger] lines.take(j),
            ) == a ==> j == i,
    decreases lines.len(),
{
    let last = lines.len() - 1;
    let earlier = lines.drop_last();
    let i = if a < instruction_count(earlier) {
        lemma_instruction_at(earlier, a)
    } else {
        last
    };
    assert(lines.take(i) == earlier.take(i));
    assert forall|j: int|
        0 <= j < lines.len() && lines[j] is Instruction && instruction_count(
            #[trigger] lines.take(j),
        ) == a implies j == i by {
        if j < last {
            assert(lines.take(j) == earlier.take(j));
            lemma_instruction_is_counted(earlier, j);
        }
    }
    i
}

/// Wrapping changes a number by a multiple of 65536; the lemma returns the
/// multiple.
pub proof fn lemma_wrap_multiple(n: int) -> (k: int)
    ensures
        n == wrap_i16(n) + 0x1_0000 * k,
{
    if n % 0x1_0000 > i16::MAX {
        n / 0x1_0000 + 1
    } else {
        n / 0x1_0000
    }
}

/// The one `i16` that differs from `n` by a multiple of 65536 is
/// `wrap_i16(n)`.
pub proof fn lemma_wrap_unique(n: int, wrapped: i16, k: int)
    requires
        n == wrapped + 0x1_0000 * k,
    ensures
        wrap_i16(n) == wrapped,
{
    let j = lemma_wrap_multiple(n);
    assert(wrap_i16(n) - wrapped == 0x1_0000 * (k - j));
    assert(-0x1_0000 < wrap_i16(n) - wrapped < 0x1_0000);
    assert(k - j == 0);
}

/// Wrapping commutes with adding one.
pub proof fn lemma_wrap_successor(n: int)
    ensures
        wrap_i16(n + 1) == i16_specs::wrapping_add(wrap_i16(n), 1),
{
    let k = lemma_wrap_multiple(n);
    if wrap_i16(n) == i16::MAX {
        lemma_wrap_unique(n + 1, i16_specs::wrapping_add(wrap_i16(n), 1), k + 1);
    } else {
        lemma_wrap_unique(n + 1, i16_specs::wrapping_add(wrap_i16(n), 1), k);
    }
}

/// While the instructions before a line number at most 32767, the line's
/// address is that number.
pub proof fn lemma_address_is_exact(lines: Seq<LineView>, i: int)
    requires
        0 <= i <= lines.len(),
        instruction_count(lines.take(i)) <= i16::MAX,
    ensures
        address_at(lines, i) == instruction_count(lines.take(i)),
{
    let count = instruction_count(lines.take(i));
    lemma_wrap_unique(count as int, count as i16, 0);
}

/// The addresses follow the running counter: the first line has address
/// zero, the line after an instruction has the next address, and the line
/// after a label definition has the same address as the definition.
pub proof fn lemma_address_steps(lines: Seq<LineView>, i: int)
    requires
        0 <= i < lines.len(),
    ensures
        address_at(lines, 0) == 0,
        lines[i] is Instruction ==> address_at(lines, i + 1) == i16_specs::wrapping_add(
            address_at(lines, i),
            1,
        ),
        lines[i] is LabelDefinition ==> address_at(lines, i + 1) == address_at(lines, i),
{
    lemma_instruction_count_step(lines, i);
    lemma_wrap_successor(instruction_count(lines.take(i)) as int);
    assert(instruction_count(lines.take(0)) == 0);
    lemma_wrap_unique(0, 0i16, 0);
}

/// Pairs each line with its address. The address counter starts at zero and
/// advances, wrapping in sixteen bits, after each instruction; a label
/// definition therefore carries the address of the next instruction.
pub fn lines_with_addresses(lines: Vec<Line>) -> (result: Vec<AddressedLine>)
    ensures
        result.deep_view() == addressed(lines.deep_view()),
{
    let ghost all = lines.deep_view();
    let mut address: i16 = 0;
    let mut result: Vec<AddressedLine> = Vec::new();
    for line in it: lines
        invariant
            it.seq().len() == all.len(),
            forall|k: int| 0 <= k < all.len() ==> (#[trigger] it.seq()[k])@ == all[k],
            address == address_at(all, it.index() as int),
            result.len() == it.index(),
            forall|k: int| 0 <= k < it.index() ==> (#[trigger] result[k])@ == addressed(all)[k],
    {
        let is_instruction = line.is_instruction();
        proof {
            lemma_address_steps(all, it.index() as int);
        }
        result.push(AddressedLine { line, address });
        if is_instruction {
            address = address.wrapping_add(1);
        }
    }
    result
}

} // verus!
