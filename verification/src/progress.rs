//! Positions inside a document and the record kept for each document.

use vstd::prelude::*;

verus! {

/// A place in a document: a zero-based page and the number of pages.
#[derive(Clone, Copy, Debug, PartialEq, Eq, Structural)]
pub struct Position {
    pub current_page: usize,
    pub total_pages: usize,
}

impl Position {
    /// The page exists in the document.
    pub open spec fn in_bounds(self) -> bool {
        self.current_page < self.total_pages
    }

    /// A page follows the current one.
    pub open spec fn has_next(self) -> bool {
        self.current_page + 1 < self.total_pages
    }

    /// A page precedes the current one.
    pub open spec fn has_prev(self) -> bool {
        self.current_page > 0
    }

    /// The position one page further, or the same position on the last page.
    pub open spec fn forward(self) -> Position {
        if self.has_next() {
            Position { current_page: (self.current_page + 1) as usize, total_pages: self.total_pages }
        } else {
            self
        }
    }

    /// The position one page back, or the same position on the first page.
    pub open spec fn backward(self) -> Position {
        if self.has_prev() {
            Position { current_page: (self.current_page - 1) as usize, total_pages: self.total_pages }
        } else {
            self
        }
    }

    /// A page number as a user writes it, counted from one, names a page of the
    /// document.
    pub open spec fn accepts(self, requested: usize) -> bool {
        1 <= requested <= self.total_pages
    }

    /// The position at the page a user asked for by its one-based number, or the
    /// same position where the document has no such page.
    pub open spec fn jump(self, requested: usize) -> Position {
        if self.accepts(requested) {
            Position { current_page: (requested - 1) as usize, total_pages: self.total_pages }
        } else {
            self
        }
    }

    /// The page number shown to a user, counted from one.
    pub open spec fn page_number_of(self) -> int {
        self.current_page + 1
    }

    /// How much of the document lies behind the reader once the current page is
    /// read, in whole percent. Meaningful only for a document that has pages.
    pub open spec fn percent_of(self) -> int {
        (self.current_page + 1) * 100 / (self.total_pages as int)
    }

    /// The position at a zero-based page of a document of `total_pages` pages.
    pub fn new(current_page: usize, total_pages: usize) -> (p: Position)
        ensures
            p == (Position { current_page, total_pages }),
    {
        Position { current_page, total_pages }
    }

    /// The page number shown to a user, counted from one.
    pub fn page_number(&self) -> (n: u128)
        ensures
            n == self.page_number_of(),
    {
        self.current_page as u128 + 1
    }

    /// The share of the document read, in whole percent, or `None` for a document
    /// without pages, for which no share exists.
    pub fn percent(&self) -> (pct: Option<u128>)
        ensures
            self.total_pages == 0 <==> pct is None,
            pct matches Some(p) ==> p == self.percent_of(),
    {
        if self.total_pages == 0 {
            None
        } else {
            let read: u128 = self.current_page as u128 + 1;
            Some(read * 100 / (self.total_pages as u128))
        }
    }
}

/// Going forward and then back returns to the starting page, unless the
/// position was on the last page, where going forward changes nothing.
pub proof fn lemma_forward_then_backward(p: Position)
    requires
        p.in_bounds(),
    ensures
        p.has_next() ==> p.forward().backward() == p,
        !p.has_next() ==> p.forward() == p,
        p.forward().in_bounds(),
{
}

/// Going back and then forward returns to the starting page, unless the
/// position was on the first page, where going back changes nothing.
pub proof fn lemma_backward_then_forward(p: Position)
    requires
        p.in_bounds(),
    ensures
        p.has_prev() ==> p.backward().forward() == p,
        !p.has_prev() ==> p.backward() == p,
        p.backward().in_bounds(),
{
}

/// A jump to a page number between one and the page count lands on the page
/// before that number; any other number leaves the position where it was.
pub proof fn lemma_jump(p: Position, requested: usize)
    ensures
        1 <= requested <= p.total_pages ==> p.jump(requested).current_page == requested - 1,
        !(1 <= requested <= p.total_pages) ==> p.jump(requested) == p,
        p.jump(requested).total_pages == p.total_pages,
        p.in_bounds() ==> p.jump(requested).in_bounds(),
{
}

/// Inside a document the percentage read lies between 0 and 100 and reaches 100
/// exactly on the last page.
pub proof fn lemma_percent_range(p: Position)
    requires
        p.in_bounds(),
    ensures
        0 <= p.percent_of() <= 100,
        p.percent_of() == 100 <==> !p.has_next(),
{
    let read = p.current_page + 1;
    let total = p.total_pages as int;
    assert(read * 100 <= total * 100) by (nonlinear_arith)
        requires
            read <= total,
    ;
    assert(read * 100 / total <= 100) by (nonlinear_arith)
        requires
            0 < total,
            read * 100 <= total * 100,
    ;
    assert(0 <= read * 100 / total) by (nonlinear_arith)
        requires
            0 < total,
            0 <= read,
    ;
    if read == total {
        assert(read * 100 / total == 100) by (nonlinear_arith)
            requires
                0 < total,
                read == total,
        ;
    } else {
        assert(read * 100 / total < 100) by (nonlinear_arith)
            requires
                0 < total,
                0 <= read < total,
        ;
    }
}

/// A progress record: what is remembered about one document. `path` is the
/// document's identity, the canonical absolute path of its file; the rest is the
/// page last reached and the number of pages the document had then.
#[derive(Debug)]
pub struct BookProgress {
    pub path: String,
    pub current_page: usize,
    pub total_pages: usize,
}

impl Clone for BookProgress {
    fn clone(&self) -> (copy: BookProgress)
        ensures
            copy.path@ == self.path@,
            copy.position_of() == self.position_of(),
    {
        BookProgress {
            path: self.path.clone(),
            current_page: self.current_page,
            total_pages: self.total_pages,
        }
    }
}

impl BookProgress {
    /// The remembered place in the document.
    pub open spec fn position_of(&self) -> Position {
        Position { current_page: self.current_page, total_pages: self.total_pages }
    }

    /// The record that the document `path` was left at a zero-based page.
    pub fn new(path: String, current_page: usize, total_pages: usize) -> (record: BookProgress)
        ensures
            record.path@ == path@,
            record.position_of() == (Position { current_page, total_pages }),
    {
        BookProgress { path, current_page, total_pages }
    }

    /// The remembered place in the document.
    pub fn position(&self) -> (p: Position)
        ensures
            p == self.position_of(),
    {
        Position { current_page: self.current_page, total_pages: self.total_pages }
    }
}

} // verus!
