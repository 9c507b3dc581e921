//! Terminal styling that styles nothing.

use vstd::prelude::*;

verus! {

/// A value with (ignored) terminal styling.
pub struct MockStyled<T>(pub T);

/// Text attributes.
pub enum Attribute {
    Bold,
    Italic,
    Underlined,
    Dim,
}

/// Terminal colours.
pub enum Color {
    Red,
    Green,
    Yellow,
    Blue,
    Magenta,
    Cyan,
    White,
    Black,
}

impl<T> MockStyled<T> {
    /// Red: the value unchanged.
    pub fn red(self) -> (r: Self)
        ensures
            r == self,
    {
        self
    }

    /// Green: the value unchanged.
    pub fn green(self) -> (r: Self)
        ensures
            r == self,
    {
        self
    }

    /// Yellow: the value unchanged.
    pub fn yellow(self) -> (r: Self)
        ensures
            r == self,
    {
        self
    }

    /// Blue: the value unchanged.
    pub fn blue(self) -> (r: Self)
        ensures
            r == self,
    {
        self
    }

    /// Magenta: the value unchanged.
    pub fn magenta(self) -> (r: Self)
        ensures
            r == self,
    {
        self
    }

    /// Cyan: the value unchanged.
    pub fn cyan(self) -> (r: Self)
        ensures
            r == self,
    {
        self
    }

    /// White: the value unchanged.
    pub fn white(self) -> (r: Self)
        ensures
            r == self,
    {
        self
    }

    /// An attribute: the value unchanged.
    pub fn attr(self, _attribute: Attribute) -> (r: Self)
        ensures
            r == self,
    {
        self
    }

    /// A foreground colour: the value unchanged.
    pub fn fg(self, _color: Color) -> (r: Self)
        ensures
            r == self,
    {
        self
    }

    /// Styling for standard error: the value unchanged.
    pub fn for_stderr(self) -> (r: Self)
        ensures
            r == self,
    {
        self
    }

    /// Dim: the value unchanged.
    pub fn dim(self) -> (r: Self)
        ensures
            r == self,
    {
        self
    }

    /// Bold: the value unchanged.
    pub fn bold(self) -> (r: Self)
        ensures
            r == self,
    {
        self
    }

    /// Underlined: the value unchanged.
    pub fn underlined(self) -> (r: Self)
        ensures
            r == self,
    {
        self
    }
}

/// Wraps `t` for styling.
pub fn style<T>(t: T) -> (r: MockStyled<T>)
    ensures
        r.0 == t,
{
    MockStyled(t)
}

/// A terminal handle.
pub struct Term;

impl Term {
    /// The standard output terminal.
    pub fn stdout() -> (r: Self)
        ensures
            r == (Term {}),
    {
        Term
    }

    /// Whether this is an interactive terminal: never.
    pub fn is_term(&self) -> (r: bool)
        ensures
            !r,
    {
        false
    }
}

} // verus!
