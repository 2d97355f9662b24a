//! One reading session: the live position in an open document and the moves a
//! user can make, each written into the progress store as it happens.

use crate::progress::Position;
use crate::reader::{Reader, ReaderView};
use vstd::prelude::*;

verus! {

/// How a request to a session ended.
#[derive(Clone, Copy, Debug, PartialEq, Eq, Structural)]
pub enum Outcome {
    /// The cursor went to the requested page and the store has the new position.
    Moved,
    /// The cursor stayed and the store has its position.
    Bookmarked,
    /// The session is over and the store has the position it ended at.
    Closed,
    /// There is no page after the current one; nothing changed.
    AtUpperBound,
    /// There is no page before the current one; nothing changed.
    AtLowerBound,
    /// The document has no page of the requested number; nothing changed.
    OutOfRange,
    /// The input was no known command or no page number; nothing changed.
    InvalidInput,
    /// The table of contents is to be shown; nothing changed.
    ShowToc,
    /// The document's description is to be shown; nothing changed.
    ShowInfo,
}

impl Outcome {
    /// The store was written to, so it is due to be saved.
    pub open spec fn recorded(self) -> bool {
        self == Outcome::Moved || self == Outcome::Bookmarked || self == Outcome::Closed
    }

    /// The request was turned down and the user is to be told why.
    pub open spec fn refused(self) -> bool {
        self == Outcome::AtUpperBound || self == Outcome::AtLowerBound || self
            == Outcome::OutOfRange || self == Outcome::InvalidInput
    }

    /// Whether the store was written to, so that it is due to be saved.
    pub fn is_recorded(&self) -> (yes: bool)
        ensures
            yes == self.recorded(),
    {
        match self {
            Outcome::Moved | Outcome::Bookmarked | Outcome::Closed => true,
            _ => false,
        }
    }

    /// Whether the request was turned down, so that the user is to be told why.
    pub fn is_refused(&self) -> (yes: bool)
        ensures
            yes == self.refused(),
    {
        match self {
            Outcome::AtUpperBound
            | Outcome::AtLowerBound
            | Outcome::OutOfRange
            | Outcome::InvalidInput => true,
            _ => false,
        }
    }
}

/// Why no session could be started.
#[derive(Clone, Copy, Debug, PartialEq, Eq, Structural)]
pub enum OpenError {
    /// The document has no pages, so there is no page to be on.
    InvalidDocument,
}

/// A session's cursor as a mathematical value.
#[verifier::ext_equal]
pub struct CursorView {
    pub document_id: Seq<char>,
    pub position: Position,
}

impl CursorView {
    /// The cursor is on a page of its document.
    pub open spec fn valid(self) -> bool {
        self.position.in_bounds()
    }

    /// The same session at another position.
    pub open spec fn at(self, position: Position) -> CursorView {
        CursorView { document_id: self.document_id, position }
    }
}

impl ReaderView {
    /// The store after a cursor's position was written into it.
    pub open spec fn saved(self, cursor: CursorView) -> ReaderView {
        self.record(cursor.document_id, cursor.position)
    }
}

/// What was written for a document is what is read back for it, and what is
/// remembered of other documents and of the document opened last stays as it was.
pub proof fn lemma_record_then_get(reader: ReaderView, path: Seq<char>, position: Position)
    ensures
        reader.record(path, position).get(path) == Some(position),
        forall|other: Seq<char>|
            other != path ==> #[trigger] reader.record(path, position).get(other)
                == reader.get(other),
        reader.record(path, position).last_read == reader.last_read,
{
}

/// A document whose session ended on some page is taken up again on that page,
/// unless it no longer has that many pages: then it is taken up on the first page.
/// Documents opened in between do not change that.
pub proof fn lemma_reopen_resumes(
    reader: ReaderView,
    cursor: CursorView,
    opened_since: Seq<char>,
    total_pages: usize,
)
    ensures
        ({
            let closed = reader.saved(cursor);
            let page = cursor.position.current_page;
            &&& closed.resume_page(cursor.document_id, total_pages) == if page < total_pages {
                page
            } else {
                0
            }
            &&& closed.opened(opened_since).resume_page(cursor.document_id, total_pages)
                == closed.resume_page(cursor.document_id, total_pages)
        }),
{
}

/// A session that starts on a remembered page starts in step with the store: the
/// store holds the page the cursor is on. That is so whenever the document still
/// has the page remembered for it.
pub proof fn lemma_open_in_step(reader: ReaderView, path: Seq<char>, total_pages: usize)
    requires
        reader.get(path) matches Some(position) && position.current_page < total_pages,
    ensures
        reader.opened(path).get(path) matches Some(position) && position.current_page
            == reader.resume_page(path, total_pages),
{
}

/// The session cursor: the live position in one open document. It is always on a
/// page of the document, and it is what says where the reader is; the store only
/// mirrors it.
#[derive(Debug)]
pub struct SessionCursor {
    document_id: String,
    position: Position,
}

impl View for SessionCursor {
    type V = CursorView;

    closed spec fn view(&self) -> CursorView {
        CursorView { document_id: self.document_id@, position: self.position }
    }
}

impl Reader {
    /// Starts a session on a document of `total_pages` pages. It begins on the page
    /// remembered for the document while the document still has that page, and on
    /// the first page otherwise. The document becomes the one to continue with, so
    /// the store is due to be written out. A document without pages starts no
    /// session and leaves the store untouched.
    pub fn open_book(&mut self, path: &str, total_pages: usize) -> (opened: Result<
        SessionCursor,
        OpenError,
    >)
        ensures
            (match opened {
                Ok(cursor) => {
                    &&& total_pages > 0
                    &&& cursor@.document_id == path@
                    &&& cursor@.position.current_page == old(self)@.resume_page(path@, total_pages)
                    &&& cursor@.position.total_pages == total_pages
                    &&& cursor@.valid()
                    &&& final(self)@ == old(self)@.opened(path@)
                },
                Err(e) => {
                    &&& total_pages == 0
                    &&& e == OpenError::InvalidDocument
                    &&& final(self)@ == old(self)@
                },
            }),
    {
        if total_pages == 0 {
            return Err(OpenError::InvalidDocument);
        }
        let remembered = match self.get(path) {
            Some(record) => record.current_page,
            None => 0,
        };
        let current_page = if remembered < total_pages {
            remembered
        } else {
            0
        };
        self.set_last_opened(path);
        Ok(
            SessionCursor {
                document_id: path.to_owned(),
                position: Position { current_page, total_pages },
            },
        )
    }
}

impl SessionCursor {
    #[verifier::type_invariant]
    spec fn on_a_page(&self) -> bool {
        self.position.in_bounds()
    }

    /// The identity of the open document.
    pub fn document_id(&self) -> (id: &String)
        ensures
            id@ == self@.document_id,
    {
        &self.document_id
    }

    /// Where the cursor stands.
    pub fn position(&self) -> (position: Position)
        ensures
            position == self@.position,
            self@.valid(),
    {
        proof {
            use_type_invariant(self);
        }
        self.position
    }

    /// The current page, counted from zero.
    pub fn current_page(&self) -> (page: usize)
        ensures
            page == self@.position.current_page,
            page < self@.position.total_pages,
    {
        proof {
            use_type_invariant(self);
        }
        self.position.current_page
    }

    /// The number of pages of the open document.
    pub fn total_pages(&self) -> (pages: usize)
        ensures
            pages == self@.position.total_pages,
            pages > 0,
    {
        proof {
            use_type_invariant(self);
        }
        self.position.total_pages
    }

    /// Goes to the next page and writes the new position into the store. On the
    /// last page nothing changes.
    pub fn next(&mut self, reader: &mut Reader) -> (outcome: Outcome)
        ensures
            final(self)@ == old(self)@.at(old(self)@.position.forward()),
            final(self)@.valid(),
            old(self)@.position.has_next() ==> outcome == Outcome::Moved,
            old(self)@.position.has_next() ==> final(reader)@ == old(reader)@.saved(final(self)@),
            !old(self)@.position.has_next() ==> outcome == Outcome::AtUpperBound,
            !old(self)@.position.has_next() ==> final(reader)@ == old(reader)@,
            outcome.recorded() ==> final(reader)@.get(final(self)@.document_id) == Some(
                final(self)@.position,
            ),
    {
        proof {
            use_type_invariant(&*self);
        }
        if self.position.current_page + 1 < self.position.total_pages {
            self.position = Position {
                current_page: self.position.current_page + 1,
                total_pages: self.position.total_pages,
            };
            self.bookmark(reader);
            Outcome::Moved
        } else {
            Outcome::AtUpperBound
        }
    }

    /// Goes to the previous page and writes the new position into the store. On the
    /// first page nothing changes.
    pub fn prev(&mut self, reader: &mut Reader) -> (outcome: Outcome)
        ensures
            final(self)@ == old(self)@.at(old(self)@.position.backward()),
            final(self)@.valid(),
            old(self)@.position.has_prev() ==> outcome == Outcome::Moved,
            old(self)@.position.has_prev() ==> final(reader)@ == old(reader)@.saved(final(self)@),
            !old(self)@.position.has_prev() ==> outcome == Outcome::AtLowerBound,
            !old(self)@.position.has_prev() ==> final(reader)@ == old(reader)@,
            outcome.recorded() ==> final(reader)@.get(final(self)@.document_id) == Some(
                final(self)@.position,
            ),
    {
        proof {
            use_type_invariant(&*self);
        }
        if self.position.current_page > 0 {
            self.position = Position {
                current_page: self.position.current_page - 1,
                total_pages: self.position.total_pages,
            };
            self.bookmark(reader);
            Outcome::Moved
        } else {
            Outcome::AtLowerBound
        }
    }

    /// Goes to the page that a user names by its number, counted from one, and
    /// writes the new position into the store. Where the document has no page of
    /// that number nothing changes.
    pub fn goto(&mut self, reader: &mut Reader, requested: usize) -> (outcome: Outcome)
        ensures
            final(self)@ == old(self)@.at(old(self)@.position.jump(requested)),
            final(self)@.valid(),
            1 <= requested <= old(self)@.position.total_pages ==> outcome == Outcome::Moved,
            1 <= requested <= old(self)@.position.total_pages ==> final(self)@.position.current_page
                == requested - 1,
            1 <= requested <= old(self)@.position.total_pages ==> final(reader)@ == old(reader)@.saved(final(self)@),
            !(1 <= requested <= old(self)@.position.total_pages) ==> outcome == Outcome::OutOfRange,
            !(1 <= requested <= old(self)@.position.total_pages) ==> final(reader)@ == old(reader)@,
            outcome.recorded() ==> final(reader)@.get(final(self)@.document_id) == Some(
                final(self)@.position,
            ),
    {
        proof {
            use_type_invariant(&*self);
        }
        if 1 <= requested && requested <= self.position.total_pages {
            self.position = Position {
                current_page: requested - 1,
                total_pages: self.position.total_pages,
            };
            self.bookmark(reader);
            Outcome::Moved
        } else {
            Outcome::OutOfRange
        }
    }

    /// Sets a bookmark: writes the cursor's position into the store. The cursor
    /// stays where it is.
    pub fn bookmark(&self, reader: &mut Reader)
        ensures
            final(reader)@ == old(reader)@.saved(self@),
            final(reader)@.get(self@.document_id) == Some(self@.position),
    {
        reader.update_progress(
            self.document_id.as_str(),
            self.position.current_page,
            self.position.total_pages,
        );
    }

    /// Ends the session: writes the position it ended at into the store and gives
    /// the cursor up.
    pub fn close(self, reader: &mut Reader)
        ensures
            final(reader)@ == old(reader)@.saved(self@),
            final(reader)@.get(self@.document_id) == Some(self@.position),
    {
        self.bookmark(reader);
    }

    /// The current page as shown to a user, counted from one.
    pub fn page_number(&self) -> (n: usize)
        ensures
            n == self@.position.page_number_of(),
            1 <= n <= self@.position.total_pages,
    {
        proof {
            use_type_invariant(self);
        }
        self.position.current_page + 1
    }

    /// The share of the document read once the current page is read, in whole
    /// percent.
    pub fn percent(&self) -> (pct: usize)
        ensures
            pct == self@.position.percent_of(),
            pct <= 100,
    {
        proof {
            use_type_invariant(self);
            crate::progress::lemma_percent_range(self.position);
        }
        let read: u128 = self.position.current_page as u128 + 1;
        (read * 100 / (self.position.total_pages as u128)) as usize
    }
}

} // verus!
