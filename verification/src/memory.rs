use crate::error::ExecErrorKind;
use crate::names::{distinct, find_name, lemma_paired_push, lemma_paired_update, lemma_position, paired};
use crate::text::{lemma_texts_push, texts};
use vstd::prelude::*;

verus! {

/// The width of the elements of an array.
#[derive(Clone, Copy, Debug, PartialEq, Eq, Structural)]
pub enum Size {
    /// One addressing unit to the element.
    Byte,
    /// Three addressing units to the element.
    Word,
}

impl Size {
    /// The number of addressing units that one element takes.
    pub open spec fn units(self) -> int {
        match self {
            Size::Byte => 1,
            Size::Word => 3,
        }
    }

    /// The number of addressing units that one element takes.
    pub fn width(&self) -> (out: i16)
        ensures
            out == self.units(),
    {
        match self {
            Size::Byte => 1,
            Size::Word => 3,
        }
    }
}

/// What a memory cell holds.
#[derive(Debug)]
pub enum MemoryType {
    /// One value.
    Integer(i16),
    /// A fixed number of values of one width.
    Array(Vec<i16>, Size),
}

/// What a memory cell holds, over plain values.
pub enum CellView {
    Integer(i16),
    Array(Seq<i16>, Size),
}

impl View for MemoryType {
    type V = CellView;

    open spec fn view(&self) -> CellView {
        match self {
            MemoryType::Integer(v) => CellView::Integer(*v),
            MemoryType::Array(items, size) => CellView::Array(items@, *size),
        }
    }
}

impl Clone for MemoryType {
    fn clone(&self) -> (out: Self)
        ensures
            out@ == self@,
    {
        match self {
            MemoryType::Integer(v) => MemoryType::Integer(*v),
            MemoryType::Array(items, size) => {
                let mut copy: Vec<i16> = Vec::new();
                let mut i: usize = 0;
                while i < items.len()
                    invariant
                        i <= items.len(),
                        copy@ == items@.take(i as int),
                    decreases items.len() - i,
                {
                    copy.push(items[i]);
                    assert(items@.take(i + 1) == items@.take(i as int).push(items@[i as int]));
                    i += 1;
                }
                assert(items@.take(items.len() as int) == items@);
                MemoryType::Array(copy, *size)
            },
        }
    }
}

/// The element that an offset addresses in an array of `len` elements of
/// the given width, if it addresses one: the offset divided by the width.
pub open spec fn element_index(len: nat, size: Size, offset: int) -> Option<int> {
    if 0 <= offset && offset / size.units() < len {
        Some(offset / size.units())
    } else {
        None
    }
}

/// The value read from a cell. Without an offset a single value is read as
/// it is and an array at its first element; with an offset the cell must be
/// an array.
pub open spec fn cell_value(cell: CellView, offset: Option<i16>) -> Result<i16, ExecErrorKind> {
    match cell {
        CellView::Integer(v) => match offset {
            None => Ok(v),
            Some(_) => Err(ExecErrorKind::ArrayExpected),
        },
        CellView::Array(items, size) => {
            let at = match offset {
                None => 0,
                Some(o) => o as int,
            };
            match element_index(items.len(), size, at) {
                Some(i) => Ok(items[i]),
                None => Err(ExecErrorKind::OutOfBounds),
            }
        },
    }
}

/// The cell after `value` was stored at `offset`.
pub open spec fn cell_stored(cell: CellView, offset: i16, value: i16) -> Result<
    CellView,
    ExecErrorKind,
> {
    match cell {
        CellView::Integer(_) => Err(ExecErrorKind::ArrayExpected),
        CellView::Array(items, size) => match element_index(items.len(), size, offset as int) {
            Some(i) => Ok(CellView::Array(items.update(i, value), size)),
            None => Err(ExecErrorKind::OutOfBounds),
        },
    }
}

/// The value read from the cell called `name`.
pub open spec fn memory_value(
    memory: Map<Seq<char>, CellView>,
    name: Seq<char>,
    offset: Option<i16>,
) -> Result<i16, ExecErrorKind> {
    if memory.contains_key(name) {
        cell_value(memory[name], offset)
    } else {
        Err(ExecErrorKind::UnknownMemory)
    }
}

/// The memory after `value` was stored to the cell called `name`. Without
/// an offset the cell becomes a single value, whatever it was, and is made
/// if it does not exist; with an offset one element of an existing array is
/// replaced.
pub open spec fn memory_stored(
    memory: Map<Seq<char>, CellView>,
    name: Seq<char>,
    value: i16,
    offset: Option<i16>,
) -> Result<Map<Seq<char>, CellView>, ExecErrorKind> {
    match offset {
        None => Ok(memory.insert(name, CellView::Integer(value))),
        Some(o) => if memory.contains_key(name) {
            match cell_stored(memory[name], o, value) {
                Ok(cell) => Ok(memory.insert(name, cell)),
                Err(e) => Err(e),
            }
        } else {
            Err(ExecErrorKind::UnknownMemory)
        },
    }
}

/// The element of `items` that `offset` addresses.
fn locate(items: &Vec<i16>, size: Size, offset: i16) -> (out: Option<usize>)
    ensures
        match element_index(items@.len(), size, offset as int) {
            Some(i) => out == Some(i as usize) && i < items.len(),
            None => out is None,
        },
{
    if offset < 0 {
        return None;
    }
    let index = (offset / size.width()) as usize;
    if index < items.len() {
        Some(index)
    } else {
        None
    }
}

/// The views of a list of cells.
pub open spec fn cell_views(cells: Seq<MemoryType>) -> Seq<CellView> {
    Seq::new(cells.len(), |i: int| cells[i]@)
}

/// The named cells of a program, in the order in which the names first
/// came up.
#[derive(Debug)]
pub struct Memory {
    names: Vec<String>,
    cells: Vec<MemoryType>,
}

impl View for Memory {
    type V = Map<Seq<char>, CellView>;

    closed spec fn view(&self) -> Map<Seq<char>, CellView> {
        paired(texts(self.names@), cell_views(self.cells@))
    }
}

impl Memory {
    /// Whether every name stands once and has its cell.
    pub closed spec fn wf(&self) -> bool {
        &&& self.names.len() == self.cells.len()
        &&& distinct(texts(self.names@))
    }

    /// The names of the cells, in order.
    pub closed spec fn names(&self) -> Seq<Seq<char>> {
        texts(self.names@)
    }

    /// The names listed are the names that lead to a cell, each listed once.
    pub proof fn lemma_names(&self)
        requires
            self.wf(),
        ensures
            distinct(self.names()),
            forall|name: Seq<char>| self@.contains_key(name) <==> self.names().contains(name),
    {
    }

    /// A memory without cells.
    pub fn new() -> (out: Memory)
        ensures
            out.wf(),
            out@ == Map::<Seq<char>, CellView>::empty(),
            out.names().len() == 0,
    {
        let out = Memory { names: Vec::new(), cells: Vec::new() };
        assert(out@ =~= Map::<Seq<char>, CellView>::empty());
        out
    }

    /// The number of cells.
    pub fn len(&self) -> (out: usize)
        requires
            self.wf(),
        ensures
            out == self.names().len(),
    {
        self.names.len()
    }

    /// The name of the cell at a position of the list.
    pub fn name_at(&self, index: usize) -> (out: &String)
        requires
            self.wf(),
            index < self.names().len(),
        ensures
            out@ == self.names()[index as int],
    {
        &self.names[index]
    }

    /// The cell at a position of the list.
    pub fn cell_at(&self, index: usize) -> (out: &MemoryType)
        requires
            self.wf(),
            index < self.names().len(),
        ensures
            self@.contains_key(self.names()[index as int]),
            out@ == self@[self.names()[index as int]],
    {
        proof {
            lemma_position(texts(self.names@), cell_views(self.cells@), index as int);
        }
        &self.cells[index]
    }

    /// The cell called `name`, if there is one.
    pub fn get(&self, name: &str) -> (out: Option<&MemoryType>)
        requires
            self.wf(),
        ensures
            match out {
                Some(cell) => self@.contains_key(name@) && cell@ == self@[name@],
                None => !self@.contains_key(name@),
            },
    {
        match find_name(&self.names, name) {
            Some(i) => {
                proof {
                    lemma_position(texts(self.names@), cell_views(self.cells@), i as int);
                }
                Some(&self.cells[i])
            },
            None => None,
        }
    }

    /// Puts `cell` under `name`, in place of what was there.
    pub fn insert(&mut self, name: String, cell: MemoryType)
        requires
            old(self).wf(),
        ensures
            final(self).wf(),
            final(self)@ == old(self)@.insert(name@, cell@),
    {
        let ghost names = texts(self.names@);
        let ghost cells = cell_views(self.cells@);
        match find_name(&self.names, name.as_str()) {
            Some(i) => {
                proof {
                    lemma_paired_update(names, cells, i as int, cell@);
                }
                self.cells[i] = cell;
                assert(cell_views(self.cells@) =~= cells.update(i as int, cell@));
            },
            None => {
                proof {
                    lemma_paired_push(names, cells, name@, cell@);
                    lemma_texts_push(self.names@, name);
                }
                self.names.push(name);
                self.cells.push(cell);
                assert(cell_views(self.cells@) =~= cells.push(cell@));
            },
        }
    }

    /// Reads the cell called `name`.
    pub fn read(&self, name: &str, offset: Option<i16>) -> (out: Result<i16, ExecErrorKind>)
        requires
            self.wf(),
        ensures
            out == memory_value(self@, name@, offset),
    {
        match self.get(name) {
            None => Err(ExecErrorKind::UnknownMemory),
            Some(cell) => match cell {
                MemoryType::Integer(v) => match offset {
                    None => Ok(*v),
                    Some(_) => Err(ExecErrorKind::ArrayExpected),
                },
                MemoryType::Array(items, size) => {
                    let at: i16 = match offset {
                        None => 0,
                        Some(o) => o,
                    };
                    match locate(items, *size, at) {
                        Some(i) => Ok(items[i]),
                        None => Err(ExecErrorKind::OutOfBounds),
                    }
                },
            },
        }
    }

    /// Stores `value` to the cell called `name`. On an error the memory is
    /// left as it was.
    pub fn write(&mut self, name: &str, value: i16, offset: Option<i16>) -> (out: Result<
        (),
        ExecErrorKind,
    >)
        requires
            old(self).wf(),
        ensures
            final(self).wf(),
            match memory_stored(old(self)@, name@, value, offset) {
                Ok(memory) => out is Ok && final(self)@ == memory,
                Err(e) => out == Err::<(), ExecErrorKind>(e) && final(self)@ == old(self)@,
            },
    {
        let ghost names = texts(self.names@);
        let ghost cells = cell_views(self.cells@);
        match offset {
            None => {
                self.insert(name.to_owned(), MemoryType::Integer(value));
                Ok(())
            },
            Some(o) => match find_name(&self.names, name) {
                None => Err(ExecErrorKind::UnknownMemory),
                Some(i) => {
                    proof {
                        lemma_position(names, cells, i as int);
                    }
                    match &mut self.cells[i] {
                        MemoryType::Integer(_) => Err(ExecErrorKind::ArrayExpected),
                        MemoryType::Array(items, size) => match locate(items, *size, o) {
                            None => Err(ExecErrorKind::OutOfBounds),
                            Some(j) => {
                                items[j] = value;
                                proof {
                                    let cell = cell_stored(cells[i as int], o, value).unwrap();
                                    lemma_paired_update(names, cells, i as int, cell);
                                    assert(cell_views(self.cells@) =~= cells.update(i as int, cell));
                                }
                                Ok(())
                            },
                        },
                    }
                },
            },
        }
    }
}

} // verus!
