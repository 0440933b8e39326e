//! The shop floor as a grid: which cells hold a machine, and how each
//! cell is drawn.

use vstd::prelude::*;

verus! {

/// Number of cells along each side of the floor.
pub const GRID: usize = 20;

/// The colour of a machine.
#[derive(Debug, Clone, Copy, PartialEq, Eq, Structural)]
pub enum Shade {
    Blue,
    Green,
    Red,
}

/// A machine at a cell of the floor.
#[derive(Debug)]
pub struct Pos2d {
    pub x: usize,
    pub y: usize,
    pub color: Shade,
    pub label: Option<String>,
}

/// The machines of the floor.
#[derive(Debug)]
pub struct Pos2dElems {
    pub items: Vec<Pos2d>,
}

impl Pos2d {
    /// A machine without a label.
    pub fn new(x: usize, y: usize, color: Shade) -> (pos: Self)
        ensures
            pos == (Pos2d { x, y, color, label: None }),
    {
        Pos2d { x, y, color, label: None }
    }

    /// A machine with a label.
    pub fn new_with_label(x: usize, y: usize, color: Shade, label: &str) -> (pos: Self)
        ensures
            pos.x == x,
            pos.y == y,
            pos.color == color,
            pos.label matches Some(text) && text@ == label@,
    {
        Pos2d { x, y, color, label: Some(String::from_str(label)) }
    }

    /// A blue machine without a label.
    pub fn blue(x: usize, y: usize) -> (pos: Self)
        ensures
            pos == (Pos2d { x, y, color: Shade::Blue, label: None }),
    {
        Pos2d::new(x, y, Shade::Blue)
    }

    /// A green machine without a label.
    pub fn green(x: usize, y: usize) -> (pos: Self)
        ensures
            pos == (Pos2d { x, y, color: Shade::Green, label: None }),
    {
        Pos2d::new(x, y, Shade::Green)
    }

    /// A red machine without a label.
    pub fn red(x: usize, y: usize) -> (pos: Self)
        ensures
            pos == (Pos2d { x, y, color: Shade::Red, label: None }),
    {
        Pos2d::new(x, y, Shade::Red)
    }

    /// A blue machine with a label.
    pub fn blue_with_label(x: usize, y: usize, label: &str) -> (pos: Self)
        ensures
            pos.x == x,
            pos.y == y,
            pos.color == Shade::Blue,
            pos.label matches Some(text) && text@ == label@,
    {
        Pos2d::new_with_label(x, y, Shade::Blue, label)
    }

    /// A green machine with a label.
    pub fn green_with_label(x: usize, y: usize, label: &str) -> (pos: Self)
        ensures
            pos.x == x,
            pos.y == y,
            pos.color == Shade::Green,
            pos.label matches Some(text) && text@ == label@,
    {
        Pos2d::new_with_label(x, y, Shade::Green, label)
    }

    /// A red machine with a label.
    pub fn red_with_label(x: usize, y: usize, label: &str) -> (pos: Self)
        ensures
            pos.x == x,
            pos.y == y,
            pos.color == Shade::Red,
            pos.label matches Some(text) && text@ == label@,
    {
        Pos2d::new_with_label(x, y, Shade::Red, label)
    }
}

/// Whether `i` is the index of the machine that is drawn at cell
/// `(x, y)`: the last of the machines that stand there.
pub open spec fn drawn_at(items: Seq<Pos2d>, x: usize, y: usize, i: int) -> bool {
    &&& 0 <= i < items.len()
    &&& items[i].x == x
    &&& items[i].y == y
    &&& forall|j: int| i < j < items.len() ==> !(items[j].x == x && items[j].y == y)
}

/// Whether a machine stands at cell `(x, y)`.
pub open spec fn has_machine(items: Seq<Pos2d>, x: usize, y: usize) -> bool {
    exists|i: int| 0 <= i < items.len() && items[i].x == x && items[i].y == y
}

impl Pos2dElems {
    /// The floor with the given machines.
    pub fn new(items: Vec<Pos2d>) -> (elems: Self)
        ensures
            elems.items == items,
    {
        Pos2dElems { items }
    }

    /// The floor without machines.
    pub fn empty() -> (elems: Self)
        ensures
            elems.items@.len() == 0,
    {
        Pos2dElems::new(Vec::new())
    }

    /// The index of the machine that is drawn at cell `(x, y)`. Where
    /// several machines stand at one cell, the last of them is drawn.
    pub fn machine_at(&self, x: usize, y: usize) -> (index: Option<usize>)
        ensures
            match index {
                Some(i) => drawn_at(self.items@, x, y, i as int),
                None => !has_machine(self.items@, x, y),
            },
    {
        let mut i: usize = self.items.len();
        while i > 0
            invariant
                i <= self.items@.len(),
                forall|j: int|
                    i <= j < self.items@.len() ==> !(self.items@[j].x == x && self.items@[j].y
                        == y),
            decreases i,
        {
            i -= 1;
            if self.items[i].x == x && self.items[i].y == y {
                return Some(i);
            }
        }
        None
    }
}

} // verus!
