use crate::memory::{CellView, Memory, MemoryType};
use crate::number::{all_digits, decimal_value, digit_value, is_digit, word_literal};
use crate::operand::Register;
use crate::registers::RegisterBank;
use crate::text::is_white_space;
use cli_table::format::Justify;
use cli_table::{Cell, Style, Table};
use vstd::prelude::*;
use vstd::string::StringExecFns;

verus! {

/// The character of a decimal digit.
pub open spec fn digit_char(digit: int) -> char {
    if digit == 0 {
        '0'
    } else if digit == 1 {
        '1'
    } else if digit == 2 {
        '2'
    } else if digit == 3 {
        '3'
    } else if digit == 4 {
        '4'
    } else if digit == 5 {
        '5'
    } else if digit == 6 {
        '6'
    } else if digit == 7 {
        '7'
    } else if digit == 8 {
        '8'
    } else {
        '9'
    }
}

/// The decimal digits of a natural number, without leading zeros.
pub open spec fn decimal_digits(n: nat) -> Seq<char>
    decreases n,
{
    if n < 10 {
        seq![digit_char(n as int)]
    } else {
        decimal_digits(n / 10).push(digit_char((n % 10) as int))
    }
}

/// The decimal text of an integer: a minus sign if it is negative, then
/// its digits.
pub open spec fn decimal_text(v: int) -> Seq<char> {
    if v < 0 {
        seq!['-'] + decimal_digits((-v) as nat)
    } else {
        decimal_digits(v as nat)
    }
}

/// The digits of a number are digits, and they denote the number.
pub proof fn lemma_decimal_digits(n: nat)
    ensures
        decimal_digits(n).len() > 0,
        all_digits(decimal_digits(n)),
        decimal_value(decimal_digits(n)) == n,
    decreases n,
{
    let text = decimal_digits(n);
    if n < 10 {
        assert(text.drop_last() =~= Seq::<char>::empty());
        assert(decimal_value(text.drop_last()) == 0);
        assert(digit_value(text.last()) == n);
    } else {
        lemma_decimal_digits(n / 10);
        assert(text.drop_last() =~= decimal_digits(n / 10));
        assert(digit_value(text.last()) == n % 10);
        assert forall|i: int| 0 <= i < text.len() implies is_digit(#[trigger] text[i]) by {
            if i < text.len() - 1 {
                assert(text[i] == decimal_digits(n / 10)[i]);
            }
        }
    }
}

/// The decimal text of a sixteen-bit value is a literal that denotes the
/// value.
pub proof fn lemma_decimal_round_trip(value: i16)
    ensures
        word_literal(decimal_text(value as int)) == Some(value),
{
    let text = decimal_text(value as int);
    if value < 0 {
        let digits = decimal_digits((-value) as nat);
        lemma_decimal_digits((-value) as nat);
        assert(text.skip(1) =~= digits);
        assert(text[0] == '-');
    } else {
        lemma_decimal_digits(value as nat);
        assert(is_digit(text[0]));
    }
}

fn digit_of(digit: u32) -> (out: char)
    requires
        digit < 10,
    ensures
        out == digit_char(digit as int),
{
    if digit == 0 {
        '0'
    } else if digit == 1 {
        '1'
    } else if digit == 2 {
        '2'
    } else if digit == 3 {
        '3'
    } else if digit == 4 {
        '4'
    } else if digit == 5 {
        '5'
    } else if digit == 6 {
        '6'
    } else if digit == 7 {
        '7'
    } else if digit == 8 {
        '8'
    } else {
        '9'
    }
}

fn push_digits(out: &mut String, n: u32)
    ensures
        final(out)@ == old(out)@ + decimal_digits(n as nat),
    decreases n,
{
    if n >= 10 {
        push_digits(out, n / 10);
    }
    out.push(digit_of(n % 10));
    assert(out@ =~= old(out)@ + decimal_digits(n as nat));
}

/// Writes a sixteen-bit value in decimal.
pub fn format_word(value: i16) -> (out: String)
    ensures
        out@ == decimal_text(value as int),
{
    let mut out = String::new();
    if value < 0 {
        out.push('-');
        push_digits(&mut out, (0 - value as i32) as u32);
    } else {
        push_digits(&mut out, value as u32);
    }
    assert(out@ =~= decimal_text(value as int));
    out
}

/// The registers in the order in which they are listed.
pub open spec fn register_order() -> Seq<Register> {
    seq![
        Register::A,
        Register::X,
        Register::L,
        Register::B,
        Register::S,
        Register::T,
        Register::F,
    ]
}

/// The text that stands for what a register holds: its value in decimal,
/// or nothing if it holds nothing.
pub open spec fn slot_text(slot: Option<i16>) -> Seq<char> {
    match slot {
        Some(v) => decimal_text(v as int),
        None => Seq::empty(),
    }
}

/// One row for each register: its name and what it holds.
pub fn register_rows(bank: &RegisterBank) -> (out: Vec<(String, String)>)
    ensures
        out.len() == register_order().len(),
        forall|i: int|
            0 <= i < out.len() ==> (#[trigger] out[i]).0@ == seq![register_order()[i].letter()] && out[i].1@
                == slot_text(bank.slot(register_order()[i])),
{
    let registers = Register::all();
    let mut out: Vec<(String, String)> = Vec::new();
    let mut i: usize = 0;
    while i < registers.len()
        invariant
            i <= registers.len(),
            registers@ == register_order(),
            out.len() == i,
            forall|k: int|
                0 <= k < i ==> (#[trigger] out[k]).0@ == seq![register_order()[k].letter()] && out[k].1@
                    == slot_text(bank.slot(register_order()[k])),
        decreases registers.len() - i,
    {
        let register = registers[i];
        let mut name = String::new();
        name.push(register.name());
        assert(name@ =~= seq![register.letter()]);
        let value = match bank.peek(register) {
            Some(v) => format_word(v),
            None => String::new(),
        };
        out.push((name, value));
        i += 1;
    }
    out
}

/// The text of a list of values: each value in decimal with a comma after
/// it.
pub open spec fn items_text(items: Seq<i16>) -> Seq<char>
    decreases items.len(),
{
    if items.len() == 0 {
        Seq::empty()
    } else {
        items_text(items.drop_last()) + decimal_text(items.last() as int).push(',')
    }
}

/// The text of a cell: a single value in decimal, an array as the list of
/// its values.
pub open spec fn cell_text(cell: CellView) -> Seq<char> {
    match cell {
        CellView::Integer(v) => decimal_text(v as int),
        CellView::Array(items, _) => items_text(items),
    }
}

/// Writes what a cell holds.
pub fn format_cell(cell: &MemoryType) -> (out: String)
    ensures
        out@ == cell_text(cell@),
{
    match cell {
        MemoryType::Integer(v) => format_word(*v),
        MemoryType::Array(items, _) => {
            let mut out = String::new();
            let mut i: usize = 0;
            while i < items.len()
                invariant
                    i <= items.len(),
                    out@ == items_text(items@.take(i as int)),
                decreases items.len() - i,
            {
                proof {
                    assert(items@.take(i + 1).drop_last() == items@.take(i as int));
                    assert(items@.take(i + 1).last() == items@[i as int]);
                }
                let ghost before = out@;
                let text = format_word(items[i]);
                out.append(text.as_str());
                out.push(',');
                assert(out@ =~= before + decimal_text(items@[i as int] as int).push(','));
                i += 1;
            }
            proof {
                assert(items@.take(items.len() as int) == items@);
            }
            out
        },
    }
}

/// One row for each cell of the memory, in the order of its names: the
/// name and what the cell holds.
pub fn memory_rows(memory: &Memory) -> (out: Vec<(String, String)>)
    requires
        memory.wf(),
    ensures
        out.len() == memory.names().len(),
        forall|i: int|
            0 <= i < out.len() ==> (#[trigger] out[i]).0@ == memory.names()[i] && out[i].1@
                == cell_text(memory@[memory.names()[i]]),
{
    let mut out: Vec<(String, String)> = Vec::new();
    let mut i: usize = 0;
    while i < memory.len()
        invariant
            memory.wf(),
            i <= memory.names().len(),
            out.len() == i,
            forall|k: int|
                0 <= k < i ==> (#[trigger] out[k]).0@ == memory.names()[k] && out[k].1@ == cell_text(
                    memory@[memory.names()[k]],
                ),
        decreases memory.names().len() - i,
    {
        let name = memory.name_at(i).clone();
        let value = format_cell(memory.cell_at(i));
        out.push((name, value));
        i += 1;
    }
    out
}

/// Whether a text neither starts nor ends with white space.
pub open spec fn trimmed(text: Seq<char>) -> bool {
    text.len() > 0 ==> !is_white_space(text[0]) && !is_white_space(text.last())
}

/// `cli_table`: builds a table with `Cell::cell`, `CellStruct::justify`,
/// `Style::bold`, `Table::table` and `TableStruct::title` from a title row
/// and rows of two cells, the second cell of each row set to the right, and
/// gives the text of `TableStruct::display`, or nothing if that fails. How
/// the table is drawn depends on the console of the machine, so of the text
/// only this is stated: the crate strips white space from both its ends.
#[verifier::external_body]
fn render_table(title: &(String, String), rows: &Vec<(String, String)>) -> (out: Option<String>)
    ensures
        out matches Some(text) ==> trimmed(text@),
{
    let mut cells = Vec::new();
    for (name, value) in rows {
        cells.push(vec![name.cell(), value.cell().justify(Justify::Right)]);
    }
    let heading = vec![title.0.as_str().cell().bold(true), title.1.as_str().cell().bold(true)];
    match cells.table().title(heading).bold(true).display() {
        Ok(shown) => Some(shown.to_string()),
        Err(_) => None,
    }
}

/// Draws the table of the registers: a title row, then one row for each
/// register with its name and what it holds. Gives nothing if the table
/// could not be drawn.
pub fn render_registers(bank: &RegisterBank) -> (out: Option<String>)
    ensures
        out matches Some(text) ==> trimmed(text@),
{
    let rows = register_rows(bank);
    let title = ("Register".to_owned(), "Value".to_owned());
    render_table(&title, &rows)
}

} // verus!
