//! Progress reporting that reports nothing.

use vstd::prelude::*;

verus! {

/// A progress bar that draws nothing.
pub struct ProgressBar;

/// The look of a progress bar.
pub struct ProgressStyle;

impl ProgressBar {
    /// A bar of `_len` steps.
    pub fn new(_len: u64) -> (r: Self)
        ensures
            r == (ProgressBar {}),
    {
        ProgressBar
    }

    /// A spinner.
    pub fn new_spinner() -> (r: Self)
        ensures
            r == (ProgressBar {}),
    {
        ProgressBar
    }

    /// Sets the style: nothing happens.
    pub fn set_style(&self, _style: ProgressStyle) {
    }

    /// Advances by `_delta`: nothing happens.
    pub fn inc(&self, _delta: u64) {
    }

    /// Finishes and clears: nothing happens.
    pub fn finish_and_clear(&self) {
    }

    /// Sets the message: nothing happens.
    pub fn set_message<S: Into<std::borrow::Cow<'static, str>>>(&self, _message: S) {
    }

    /// Prints a line above the bar: nothing is printed.
    pub fn println<T: std::fmt::Display>(&self, _line: T) {
    }

    /// Ticks every `_interval`: nothing happens.
    pub fn enable_steady_tick(&self, _interval: std::time::Duration) {
    }
}

impl ProgressStyle {
    /// The default bar style.
    pub fn default_bar() -> (r: Self)
        ensures
            r == (ProgressStyle {}),
    {
        ProgressStyle
    }

    /// The default spinner style.
    pub fn default_spinner() -> (r: Self)
        ensures
            r == (ProgressStyle {}),
    {
        ProgressStyle
    }

    /// A template: accepted whatever it says.
    pub fn template(self, _template: &str) -> (r: Result<Self, String>)
        ensures
            r == Ok::<Self, String>(self),
    {
        Ok(self)
    }

    /// The characters of the bar: the style unchanged.
    pub fn progress_chars(self, _chars: &str) -> (r: Self)
        ensures
            r == self,
    {
        self
    }

    /// The characters of the spinner: the style unchanged.
    pub fn tick_chars(self, _chars: &str) -> (r: Self)
        ensures
            r == self,
    {
        self
    }

    /// The style itself.
    pub fn unwrap(self) -> (r: Self)
        ensures
            r == self,
    {
        self
    }
}

} // verus!
