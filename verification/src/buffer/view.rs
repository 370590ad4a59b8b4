//! What is asked of the buffer and what it answers.
use vstd::prelude::*;

verus! {

/// The form in which lines are shown.
#[derive(Debug, Clone, Copy, PartialEq, Eq, Structural)]
pub enum BufferView {
    Plain,
    Ansi,
    Raw,
}

impl Default for BufferView {
    fn default() -> (r: Self)
        ensures
            r == BufferView::Plain,
    {
        BufferView::Plain
    }
}

/// A request for a page of lines.
#[derive(Debug, PartialEq, Eq)]
pub struct BufferReadRequest {
    pub offset: usize,
    pub limit: usize,
    pub pattern: Option<String>,
    pub ignore_case: bool,
    pub view: BufferView,
}

impl BufferReadRequest {
    /// The first `limit` lines, unfiltered and plain.
    pub fn new(limit: usize) -> (r: Self)
        ensures
            r.offset == 0,
            r.limit == limit,
            r.pattern is None,
            !r.ignore_case,
            r.view == BufferView::Plain,
    {
        BufferReadRequest {
            offset: 0,
            limit,
            pattern: None,
            ignore_case: false,
            view: BufferView::Plain,
        }
    }
}

/// One line of a page.
#[derive(Debug, PartialEq, Eq)]
pub struct BufferLine {
    pub line_number: usize,
    pub text: String,
}

/// A page of lines.
#[derive(Debug, PartialEq, Eq)]
pub struct BufferReadPage {
    pub offset: usize,
    pub returned: usize,
    pub has_more: bool,
    pub total_lines: usize,
    pub lines: Vec<BufferLine>,
}

} // verus!
