//! Tables that render to a fixed notice.

use vstd::prelude::*;

verus! {

/// A table that keeps none of its content.
pub struct Table;

/// A table cell.
pub struct Cell;

/// Cell attributes.
pub enum Attribute {
    Bold,
}

/// Cell colours.
pub enum Color {
    Cyan,
    Green,
    DarkGrey,
    Red,
    Yellow,
    White,
}

/// How the content is laid out.
pub enum ContentArrangement {
    Dynamic,
}

impl Table {
    /// An empty table.
    pub fn new() -> (r: Self)
        ensures
            r == (Table {}),
    {
        Table
    }

    /// Loads a preset: the table is unchanged.
    pub fn load_preset(&mut self, _preset: ()) -> (r: &mut Self)
        ensures
            *final(self) == *old(self),
    {
        self
    }

    /// Applies a modifier: the table is unchanged.
    pub fn apply_modifier(&mut self, _modifier: ()) -> (r: &mut Self)
        ensures
            *final(self) == *old(self),
    {
        self
    }

    /// Sets the content arrangement: the table is unchanged.
    pub fn set_content_arrangement(&mut self, _arrangement: ContentArrangement) -> (r: &mut Self)
        ensures
            *final(self) == *old(self),
    {
        self
    }

    /// Sets the header: the table is unchanged.
    pub fn set_header<T>(&mut self, _header: T) -> (r: &mut Self)
        ensures
            *final(self) == *old(self),
    {
        self
    }

    /// Adds a row: the table is unchanged.
    pub fn add_row<T>(&mut self, _row: T) -> (r: &mut Self)
        ensures
            *final(self) == *old(self),
    {
        self
    }

    /// What the table renders to.
    pub fn render(&self) -> (r: String)
        ensures
            r@ == "[Table output disabled in library build]"@,
    {
        "[Table output disabled in library build]".to_owned()
    }
}

impl Default for Table {
    fn default() -> (r: Self)
        ensures
            r == (Table {}),
    {
        Table::new()
    }
}

impl Cell {
    /// A cell for `_content`.
    pub fn new<T: std::fmt::Display>(_content: T) -> (r: Self)
        ensures
            r == (Cell {}),
    {
        Cell
    }

    /// Adds an attribute: the cell unchanged.
    pub fn add_attribute(self, _attribute: Attribute) -> (r: Self)
        ensures
            r == self,
    {
        self
    }

    /// Sets the colour: the cell unchanged.
    pub fn fg(self, _color: Color) -> (r: Self)
        ensures
            r == self,
    {
        self
    }
}

} // verus!
