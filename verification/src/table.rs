//! A table as plain values: the text of each cell and how it is to be set.

use vstd::prelude::*;

verus! {

/// To which side of its column a cell's text is pushed.
#[derive(Debug, PartialEq, Eq, Clone, Copy, Structural)]
pub enum Justify {
    Left,
    Right,
}

/// How a table is ruled.
#[derive(Debug, PartialEq, Eq, Clone, Copy, Structural)]
pub enum Frame {
    /// An outer border, and a line between any two rows and columns.
    Grid,
    /// No border; only a vertical line between the columns.
    Columns,
}

/// One cell of a table.
#[derive(Debug, PartialEq, Eq)]
pub struct Cell {
    pub text: String,
    pub justify: Justify,
    pub bold: bool,
}

/// What a cell shows.
pub struct CellView {
    pub text: Seq<char>,
    pub justify: Justify,
    pub bold: bool,
}

impl View for Cell {
    type V = CellView;

    open spec fn view(&self) -> CellView {
        CellView { text: self.text@, justify: self.justify, bold: self.bold }
    }
}

/// A table: an optional title row, the body rows, and the ruling.
#[derive(Debug, PartialEq, Eq)]
pub struct Table {
    pub title: Option<Vec<Cell>>,
    pub rows: Vec<Vec<Cell>>,
    pub frame: Frame,
}

/// What a table shows.
pub struct TableView {
    pub title: Option<Seq<CellView>>,
    pub rows: Seq<Seq<CellView>>,
    pub frame: Frame,
}

/// What a row of cells shows.
pub open spec fn row_view(row: Vec<Cell>) -> Seq<CellView> {
    Seq::new(row@.len(), |i: int| row@[i]@)
}

impl View for Table {
    type V = TableView;

    open spec fn view(&self) -> TableView {
        TableView {
            title: match self.title {
                Some(t) => Some(row_view(t)),
                None => None,
            },
            rows: Seq::new(self.rows@.len(), |i: int| row_view(self.rows@[i])),
            frame: self.frame,
        }
    }
}

/// A cell that is not bold.
pub open spec fn plain(text: Seq<char>, justify: Justify) -> CellView {
    CellView { text, justify, bold: false }
}

/// A bold cell.
pub open spec fn bold(text: Seq<char>, justify: Justify) -> CellView {
    CellView { text, justify, bold: true }
}

} // verus!
