use crate::error::{CompileError, CompileErrorKind};
use crate::memory::{CellView, MemoryType, Size};
use crate::model::{blank, consistent, CodeView, LineView};
use crate::number::{count_literal, parse_count, parse_word, word_literal};
use crate::operand::{classified, operand_views, Operand, OperandView};
use crate::operation::{lemma_resolved_arity, resolved, Operation};
use crate::text::{
    fields, lowercase_of, pieces, same_text, split_pieces, texts, to_uppercase, uppercase_of, Separator,
};
use vstd::prelude::*;

verus! {

/// The four data directives.
#[derive(Clone, Copy, Debug, PartialEq, Eq, Structural)]
pub enum Directive {
    /// `RESW`: an array of words, each of them one.
    ReserveWords,
    /// `RESB`: an array of bytes, each of them zero.
    ReserveBytes,
    /// `WORD`: an array of the words listed.
    Words,
    /// `BYTE`: an array of the bytes listed.
    Bytes,
}

/// The directive that goes by an upper-case mnemonic.
pub open spec fn directive_named(mnemonic: Seq<char>) -> Option<Directive> {
    if mnemonic == "RESW"@ {
        Some(Directive::ReserveWords)
    } else if mnemonic == "RESB"@ {
        Some(Directive::ReserveBytes)
    } else if mnemonic == "WORD"@ {
        Some(Directive::Words)
    } else if mnemonic == "BYTE"@ {
        Some(Directive::Bytes)
    } else {
        None
    }
}

/// The operands that an operand field holds: its pieces between commas,
/// each classified.
pub open spec fn operands_of(field: Seq<char>) -> Seq<OperandView> {
    Seq::new(
        pieces(field, Separator::Comma).len(),
        |i: int|
            classified(
                pieces(field, Separator::Comma)[i],
                lowercase_of(pieces(field, Separator::Comma)[i]),
            ),
    )
}

/// `count` elements, each of them `fill`.
pub open spec fn reserved(count: nat, fill: i16) -> Seq<i16> {
    Seq::new(count, |i: int| fill)
}

/// The array that a reservation declares: as many elements as its first
/// operand says.
pub open spec fn reservation(operands: Seq<OperandView>, fill: i16, size: Size) -> Result<
    CellView,
    CompileErrorKind,
> {
    if operands.len() == 0 {
        Err(CompileErrorKind::MissingOperand)
    } else {
        match operands[0] {
            OperandView::Memory(text) => match count_literal(text) {
                Some(count) => Ok(CellView::Array(reserved(count as nat, fill), size)),
                None => Err(CompileErrorKind::InvalidLiteral),
            },
            _ => Err(CompileErrorKind::InvalidLiteral),
        }
    }
}

/// The values that a list of operands denotes, if each of them is a plain
/// sixteen-bit literal.
pub open spec fn literal_items(operands: Seq<OperandView>) -> Option<Seq<i16>>
    decreases operands.len(),
{
    if operands.len() == 0 {
        Some(Seq::empty())
    } else {
        match (literal_items(operands.drop_last()), operands.last()) {
            (Some(items), OperandView::Memory(text)) => match word_literal(text) {
                Some(v) => Some(items.push(v)),
                None => None,
            },
            _ => None,
        }
    }
}

/// The array that a list of literals declares.
pub open spec fn listing(operands: Seq<OperandView>, size: Size) -> Result<CellView, CompileErrorKind> {
    match literal_items(operands) {
        Some(items) => Ok(CellView::Array(items, size)),
        None => Err(CompileErrorKind::InvalidLiteral),
    }
}

/// The cell that a directive with the given operands declares.
pub open spec fn declared_cell(directive: Directive, operands: Seq<OperandView>) -> Result<
    CellView,
    CompileErrorKind,
> {
    match directive {
        Directive::ReserveWords => reservation(operands, 1, Size::Word),
        Directive::ReserveBytes => reservation(operands, 0, Size::Byte),
        Directive::Words => listing(operands, Size::Word),
        Directive::Bytes => listing(operands, Size::Byte),
    }
}

/// What one source line says.
#[derive(Debug)]
pub enum Statement {
    /// Nothing: the line is empty or holds white space only.
    Blank,
    /// A label for the instruction that comes next.
    Label(String),
    /// A memory cell under a label.
    Cell(String, MemoryType),
    /// An instruction, with its label if it has one.
    Instruction(Option<String>, Operation, Vec<Operand>),
}

/// What one source line says, over plain values.
pub enum StatementView {
    Blank,
    Label(Seq<char>),
    Cell(Seq<char>, CellView),
    Instruction(Option<Seq<char>>, Operation, Seq<OperandView>),
}

impl View for Statement {
    type V = StatementView;

    open spec fn view(&self) -> StatementView {
        match self {
            Statement::Blank => StatementView::Blank,
            Statement::Label(name) => StatementView::Label(name@),
            Statement::Cell(name, cell) => StatementView::Cell(name@, cell@),
            Statement::Instruction(label, operation, operands) => StatementView::Instruction(
                match label {
                    Some(name) => Some(name@),
                    None => None,
                },
                *operation,
                operand_views(operands@),
            ),
        }
    }
}

/// What an operation word with its operand field says under a label.
pub open spec fn stated(label: Option<Seq<char>>, mnemonic: Seq<char>, operands: Seq<OperandView>) -> Result<
    StatementView,
    CompileErrorKind,
> {
    match directive_named(mnemonic) {
        Some(directive) => match label {
            None => Err(CompileErrorKind::MissingLabel),
            Some(name) => match declared_cell(directive, operands) {
                Ok(cell) => Ok(StatementView::Cell(name, cell)),
                Err(e) => Err(e),
            },
        },
        None => match resolved(mnemonic, operands.len()) {
            Some(operation) => Ok(StatementView::Instruction(label, operation, operands)),
            None => Err(CompileErrorKind::IncompatibleOperation),
        },
    }
}

/// What a source line says. Its words are its pieces between white space:
/// one word is a label, two are an operation and its operand field, three
/// are a label, an operation and its operand field. The operation word is
/// read in its upper-case form.
pub open spec fn parsed(line: Seq<char>) -> Result<StatementView, CompileErrorKind> {
    let words = pieces(line, Separator::Blank);
    if words.len() == 0 {
        Ok(StatementView::Blank)
    } else if words.len() == 1 {
        Ok(StatementView::Label(words[0]))
    } else if words.len() == 2 {
        stated(None, uppercase_of(words[0]), operands_of(words[1]))
    } else if words.len() == 3 {
        stated(Some(words[0]), uppercase_of(words[1]), operands_of(words[2]))
    } else {
        Err(CompileErrorKind::MalformedLine)
    }
}

/// Whether an instruction that the statement holds has as many operands as
/// its operation takes.
pub open spec fn orderly(statement: StatementView) -> bool {
    statement matches StatementView::Instruction(_, operation, operands) ==> operands.len()
        == operation.arity()
}

/// The program after a statement that stands on the source line `number`
/// was taken in. A label is bound to the index that the next instruction
/// will have; a cell is put into memory under its label, which is bound as
/// well; an instruction is appended.
pub open spec fn applied(code: CodeView, number: usize, statement: StatementView) -> CodeView {
    let index = code.lines.len() as usize;
    match statement {
        StatementView::Blank => code,
        StatementView::Label(name) => CodeView { labels: code.labels.insert(name, index), ..code },
        StatementView::Cell(name, cell) => CodeView {
            labels: code.labels.insert(name, index),
            memory: code.memory.insert(name, cell),
            ..code
        },
        StatementView::Instruction(label, operation, operands) => CodeView {
            labels: match label {
                Some(name) => code.labels.insert(name, index),
                None => code.labels,
            },
            lines: code.lines.push(
                LineView {
                    label: match label {
                        Some(name) => name,
                        None => Seq::empty(),
                    },
                    operation,
                    operands,
                    number,
                },
            ),
            ..code
        },
    }
}

/// The program after the given source lines were taken in one after the
/// other, the first of them being line one; or the first line that was
/// refused, with the reason.
pub open spec fn assembled_lines(code: CodeView, lines: Seq<Seq<char>>) -> Result<
    CodeView,
    CompileError,
>
    decreases lines.len(),
{
    if lines.len() == 0 {
        Ok(code)
    } else {
        match assembled_lines(code, lines.drop_last()) {
            Ok(before) => match parsed(lines.last()) {
                Ok(statement) => Ok(applied(before, lines.len() as usize, statement)),
                Err(kind) => Err(CompileError { line: lines.len() as usize, kind }),
            },
            Err(e) => Err(e),
        }
    }
}

/// The program that a source text assembles to.
pub open spec fn assembled(source: Seq<char>) -> Result<CodeView, CompileError> {
    assembled_lines(blank(), fields(source, Separator::Newline))
}

/// An instruction that a line is read as has as many operands as its
/// operation takes.
pub proof fn lemma_parsed_orderly(line: Seq<char>)
    ensures
        parsed(line) matches Ok(statement) ==> orderly(statement),
{
    let words = pieces(line, Separator::Blank);
    if words.len() == 2 {
        lemma_resolved_arity(uppercase_of(words[0]), operands_of(words[1]).len());
    } else if words.len() == 3 {
        lemma_resolved_arity(uppercase_of(words[1]), operands_of(words[2]).len());
    }
}

/// Taking an orderly statement in keeps a program consistent.
pub proof fn lemma_applied_consistent(code: CodeView, number: usize, statement: StatementView)
    requires
        consistent(code),
        orderly(statement),
        code.lines.len() < usize::MAX,
    ensures
        consistent(applied(code, number, statement)),
{
    let after = applied(code, number, statement);
    assert forall|i: int| 0 <= i < after.lines.len() implies (#[trigger] after.lines[i]).operands.len()
        == after.lines[i].operation.arity() by {
        if i < code.lines.len() {
            assert(after.lines[i] == code.lines[i]);
        }
    }
    assert forall|name: Seq<char>| after.labels.contains_key(name) implies #[trigger] after.labels[name]
        <= after.lines.len() by {
        if code.labels.contains_key(name) {
            assert(code.labels[name] <= code.lines.len());
        }
    }
}

/// Once a line was refused, the lines after it change nothing.
pub proof fn lemma_refused_stays(code: CodeView, lines: Seq<Seq<char>>, n: int)
    requires
        0 <= n <= lines.len(),
        assembled_lines(code, lines.take(n)) is Err,
    ensures
        assembled_lines(code, lines) == assembled_lines(code, lines.take(n)),
    decreases lines.len(),
{
    if n < lines.len() {
        assert(lines.drop_last().take(n) == lines.take(n));
        lemma_refused_stays(code, lines.drop_last(), n);
    } else {
        assert(lines.take(n) == lines);
    }
}

/// Finds the directive that goes by an upper-case mnemonic.
pub fn find_directive(mnemonic: &str) -> (out: Option<Directive>)
    ensures
        out == directive_named(mnemonic@),
{
    if same_text(mnemonic, "RESW") {
        Some(Directive::ReserveWords)
    } else if same_text(mnemonic, "RESB") {
        Some(Directive::ReserveBytes)
    } else if same_text(mnemonic, "WORD") {
        Some(Directive::Words)
    } else if same_text(mnemonic, "BYTE") {
        Some(Directive::Bytes)
    } else {
        None
    }
}

/// Reads the operands of an operand field.
pub fn read_operands(field: &str) -> (out: Vec<Operand>)
    ensures
        operand_views(out@) == operands_of(field@),
{
    let segments = split_pieces(field, Separator::Comma);
    let mut out: Vec<Operand> = Vec::new();
    let mut i: usize = 0;
    while i < segments.len()
        invariant
            i <= segments.len(),
            texts(segments@) == pieces(field@, Separator::Comma),
            out.len() == i,
            forall|k: int| 0 <= k < i ==> (#[trigger] out@[k])@ == operands_of(field@)[k],
        decreases segments.len() - i,
    {
        assert(texts(segments@)[i as int] == segments@[i as int]@);
        let operand = Operand::classify(segments[i].as_str());
        out.push(operand);
        i += 1;
    }
    assert(operand_views(out@) =~= operands_of(field@));
    out
}

/// Makes an array of `count` elements, each of them `fill`.
fn fill_array(count: usize, fill: i16) -> (out: Vec<i16>)
    ensures
        out@ == reserved(count as nat, fill),
{
    let mut out: Vec<i16> = Vec::new();
    let mut i: usize = 0;
    while i < count
        invariant
            i <= count,
            out@ == reserved(i as nat, fill),
        decreases count - i,
    {
        out.push(fill);
        assert(out@ =~= reserved((i + 1) as nat, fill));
        i += 1;
    }
    out
}

/// Makes the array that a reservation declares.
fn reserve(operands: &Vec<Operand>, fill: i16, size: Size) -> (out: Result<
    MemoryType,
    CompileErrorKind,
>)
    ensures
        match reservation(operand_views(operands@), fill, size) {
            Ok(cell) => out matches Ok(made) && made@ == cell,
            Err(e) => out matches Err(f) && f == e,
        },
{
    if operands.len() == 0 {
        return Err(CompileErrorKind::MissingOperand);
    }
    match &operands[0] {
        Operand::Memory(text) => match parse_count(text.as_str()) {
            Some(count) => Ok(MemoryType::Array(fill_array(count, fill), size)),
            None => Err(CompileErrorKind::InvalidLiteral),
        },
        _ => Err(CompileErrorKind::InvalidLiteral),
    }
}

/// Makes the array that a list of literals declares.
fn list(operands: &Vec<Operand>, size: Size) -> (out: Result<MemoryType, CompileErrorKind>)
    ensures
        match listing(operand_views(operands@), size) {
            Ok(cell) => out matches Ok(made) && made@ == cell,
            Err(e) => out matches Err(f) && f == e,
        },
{
    let ghost views = operand_views(operands@);
    let mut items: Vec<i16> = Vec::new();
    let mut i: usize = 0;
    while i < operands.len()
        invariant
            i <= operands.len(),
            views == operand_views(operands@),
            literal_items(views.take(i as int)) == Some(items@),
        decreases operands.len() - i,
    {
        proof {
            assert(views.take(i + 1).drop_last() == views.take(i as int));
            assert(views.take(i + 1).last() == operands@[i as int]@);
        }
        let value = match &operands[i] {
            Operand::Memory(text) => parse_word(text.as_str()),
            _ => None,
        };
        match value {
            Some(v) => {
                items.push(v);
            },
            None => {
                proof {
                    lemma_literal_items_prefix(views, i + 1);
                }
                return Err(CompileErrorKind::InvalidLiteral);
            },
        }
        i += 1;
    }
    proof {
        assert(views.take(operands.len() as int) == views);
    }
    Ok(MemoryType::Array(items, size))
}

/// A list of operands with a part that denotes no values denotes none.
pub proof fn lemma_literal_items_prefix(operands: Seq<OperandView>, n: int)
    requires
        0 <= n <= operands.len(),
        literal_items(operands.take(n)) is None,
    ensures
        literal_items(operands) is None,
    decreases operands.len(),
{
    if n < operands.len() {
        assert(operands.drop_last().take(n) == operands.take(n));
        lemma_literal_items_prefix(operands.drop_last(), n);
    } else {
        assert(operands.take(n) == operands);
    }
}

/// Makes the cell that a directive declares.
pub fn declare(directive: Directive, operands: &Vec<Operand>) -> (out: Result<
    MemoryType,
    CompileErrorKind,
>)
    ensures
        match declared_cell(directive, operand_views(operands@)) {
            Ok(cell) => out matches Ok(made) && made@ == cell,
            Err(e) => out matches Err(f) && f == e,
        },
{
    match directive {
        Directive::ReserveWords => reserve(operands, 1, Size::Word),
        Directive::ReserveBytes => reserve(operands, 0, Size::Byte),
        Directive::Words => list(operands, Size::Word),
        Directive::Bytes => list(operands, Size::Byte),
    }
}

/// Decides what an upper-case operation word with its operands says under
/// a label.
pub fn state(label: Option<String>, mnemonic: &str, operands: Vec<Operand>) -> (out: Result<
    Statement,
    CompileErrorKind,
>)
    ensures
        match stated(
            match label {
                Some(name) => Some(name@),
                None => None,
            },
            mnemonic@,
            operand_views(operands@),
        ) {
            Ok(statement) => out matches Ok(made) && made@ == statement,
            Err(e) => out matches Err(f) && f == e,
        },
{
    match find_directive(mnemonic) {
        Some(directive) => match label {
            None => Err(CompileErrorKind::MissingLabel),
            Some(name) => match declare(directive, &operands) {
                Ok(cell) => Ok(Statement::Cell(name, cell)),
                Err(e) => Err(e),
            },
        },
        None => match Operation::resolve(mnemonic, operands.len()) {
            Some(operation) => Ok(Statement::Instruction(label, operation, operands)),
            None => Err(CompileErrorKind::IncompatibleOperation),
        },
    }
}

/// Reads one source line.
pub fn parse_line(line: &str) -> (out: Result<Statement, CompileErrorKind>)
    ensures
        match parsed(line@) {
            Ok(statement) => out matches Ok(made) && made@ == statement,
            Err(e) => out matches Err(f) && f == e,
        },
{
    let words = split_pieces(line, Separator::Blank);
    let count = words.len();
    if count == 0 {
        return Ok(Statement::Blank);
    }
    assert(texts(words@)[0] == words@[0]@);
    if count == 1 {
        return Ok(Statement::Label(words[0].clone()));
    }
    assert(texts(words@)[1] == words@[1]@);
    if count == 2 {
        let mnemonic = to_uppercase(words[0].as_str());
        let operands = read_operands(words[1].as_str());
        return state(None, mnemonic.as_str(), operands);
    }
    assert(texts(words@)[2] == words@[2]@);
    if count == 3 {
        let mnemonic = to_uppercase(words[1].as_str());
        let operands = read_operands(words[2].as_str());
        return state(Some(words[0].clone()), mnemonic.as_str(), operands);
    }
    Err(CompileErrorKind::MalformedLine)
}

} // verus!
