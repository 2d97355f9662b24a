//! The command protocol of a reading session: one line of input is one command,
//! and each command is one step of the session.

use crate::reader::{Reader, ReaderView};
use crate::session::{CursorView, Outcome, SessionCursor};
use crate::text::{chars_of, number_of, parse_number, trim_bounds, trimmed};
use vstd::prelude::*;

verus! {

/// What a user can ask of a session.
#[derive(Clone, Copy, Debug, PartialEq, Eq, Structural)]
pub enum Command {
    /// `n`: go to the next page.
    Next,
    /// `p`: go to the previous page.
    Prev,
    /// `b`: write the current position down.
    Bookmark,
    /// `g`: go to a page whose number is then asked for.
    Goto,
    /// `t`: show the table of contents.
    Toc,
    /// `i`: show the document's description.
    Info,
    /// `q`: end the session.
    Quit,
    /// Any other input.
    Unknown,
}

/// The command that a single letter stands for.
pub open spec fn command_of_letter(letter: char) -> Command {
    if letter == 'n' {
        Command::Next
    } else if letter == 'p' {
        Command::Prev
    } else if letter == 'b' {
        Command::Bookmark
    } else if letter == 'g' {
        Command::Goto
    } else if letter == 't' {
        Command::Toc
    } else if letter == 'i' {
        Command::Info
    } else if letter == 'q' {
        Command::Quit
    } else {
        Command::Unknown
    }
}

/// The command that a line of input stands for: the white space around it is
/// ignored, and what is left must be exactly one of the command letters.
pub open spec fn command_of(line: Seq<char>) -> Command {
    let word = trimmed(line);
    if word.len() == 1 {
        command_of_letter(word[0])
    } else {
        Command::Unknown
    }
}

impl Command {
    /// The command that a single letter stands for.
    pub fn from_letter(letter: char) -> (command: Command)
        ensures
            command == command_of_letter(letter),
    {
        if letter == 'n' {
            Command::Next
        } else if letter == 'p' {
            Command::Prev
        } else if letter == 'b' {
            Command::Bookmark
        } else if letter == 'g' {
            Command::Goto
        } else if letter == 't' {
            Command::Toc
        } else if letter == 'i' {
            Command::Info
        } else if letter == 'q' {
            Command::Quit
        } else {
            Command::Unknown
        }
    }
}

/// Reads a line of input as a command.
pub fn parse_command(line: &str) -> (command: Command)
    ensures
        command == command_of(line@),
{
    let chars = chars_of(line);
    let (lo, hi) = trim_bounds(&chars);
    if hi - lo == 1 {
        Command::from_letter(chars[lo])
    } else {
        Command::Unknown
    }
}

/// A session and its store after a command, and how the command ended.
#[verifier::ext_equal]
pub struct Step {
    pub reader: ReaderView,
    pub cursor: CursorView,
    pub outcome: Outcome,
}

/// The step in which nothing changes.
pub open spec fn stay(reader: ReaderView, cursor: CursorView, outcome: Outcome) -> Step {
    Step { reader, cursor, outcome }
}

/// The step in which the cursor takes a position and the store is given it.
pub open spec fn settle(reader: ReaderView, cursor: CursorView, outcome: Outcome) -> Step {
    Step { reader: reader.saved(cursor), cursor, outcome }
}

/// What a command does to a session and its store. `page_entry` is what the user
/// typed when asked for a page number; only `Goto` reads it.
pub open spec fn step(
    reader: ReaderView,
    cursor: CursorView,
    command: Command,
    page_entry: Seq<char>,
) -> Step {
    match command {
        Command::Next => if cursor.position.has_next() {
            settle(reader, cursor.at(cursor.position.forward()), Outcome::Moved)
        } else {
            stay(reader, cursor, Outcome::AtUpperBound)
        },
        Command::Prev => if cursor.position.has_prev() {
            settle(reader, cursor.at(cursor.position.backward()), Outcome::Moved)
        } else {
            stay(reader, cursor, Outcome::AtLowerBound)
        },
        Command::Goto => match number_of(page_entry) {
            None => stay(reader, cursor, Outcome::InvalidInput),
            Some(requested) => if cursor.position.accepts(requested) {
                settle(reader, cursor.at(cursor.position.jump(requested)), Outcome::Moved)
            } else {
                stay(reader, cursor, Outcome::OutOfRange)
            },
        },
        Command::Bookmark => settle(reader, cursor, Outcome::Bookmarked),
        Command::Quit => settle(reader, cursor, Outcome::Closed),
        Command::Toc => stay(reader, cursor, Outcome::ShowToc),
        Command::Info => stay(reader, cursor, Outcome::ShowInfo),
        Command::Unknown => stay(reader, cursor, Outcome::InvalidInput),
    }
}

/// After every step the session is still on a page of the same document, and the
/// document has as many pages as before.
pub proof fn lemma_step_keeps_session(
    reader: ReaderView,
    cursor: CursorView,
    command: Command,
    page_entry: Seq<char>,
)
    requires
        cursor.valid(),
    ensures
        step(reader, cursor, command, page_entry).cursor.valid(),
        step(reader, cursor, command, page_entry).cursor.document_id == cursor.document_id,
        step(reader, cursor, command, page_entry).cursor.position.total_pages
            == cursor.position.total_pages,
{
}

/// A store in which every remembered position is on a page of its document stays
/// so through every step of a session.
pub proof fn lemma_step_keeps_store_in_bounds(
    reader: ReaderView,
    cursor: CursorView,
    command: Command,
    page_entry: Seq<char>,
)
    requires
        reader.in_bounds(),
        cursor.valid(),
    ensures
        step(reader, cursor, command, page_entry).reader.in_bounds(),
{
}

/// The store never lags the cursor: after a step that wrote to the store, the
/// store holds the cursor's position for the open document. A step that did not
/// write to the store changed nothing at all.
pub proof fn lemma_store_follows_cursor(
    reader: ReaderView,
    cursor: CursorView,
    command: Command,
    page_entry: Seq<char>,
)
    ensures
        ({
            let after = step(reader, cursor, command, page_entry);
            &&& after.outcome.recorded() ==> after.reader.get(after.cursor.document_id) == Some(
                after.cursor.position,
            )
            &&& !after.outcome.recorded() ==> after.reader == reader && after.cursor == cursor
            &&& after.reader.last_read == reader.last_read
        }),
{
}

/// A session ends on `Quit` and on nothing else.
pub proof fn lemma_only_quit_closes(
    reader: ReaderView,
    cursor: CursorView,
    command: Command,
    page_entry: Seq<char>,
)
    ensures
        step(reader, cursor, command, page_entry).outcome == Outcome::Closed <==> command
            == Command::Quit,
{
}

/// Writing the position down moves nothing: the cursor is on the same page of the
/// same document afterwards, and only the store's record for it is renewed.
pub proof fn lemma_bookmark_keeps_place(
    reader: ReaderView,
    cursor: CursorView,
    page_entry: Seq<char>,
)
    ensures
        step(reader, cursor, Command::Bookmark, page_entry).cursor == cursor,
        step(reader, cursor, Command::Bookmark, page_entry).reader == reader.saved(cursor),
        step(reader, cursor, Command::Bookmark, page_entry).outcome == Outcome::Bookmarked,
{
}

/// `Next` and then `Prev` lead back to the page the session was on, unless it was on
/// the last page: there `Next` changes nothing and says so.
pub proof fn lemma_next_then_prev(
    reader: ReaderView,
    cursor: CursorView,
    first_entry: Seq<char>,
    second_entry: Seq<char>,
)
    requires
        cursor.valid(),
    ensures
        ({
            let there = step(reader, cursor, Command::Next, first_entry);
            let back = step(there.reader, there.cursor, Command::Prev, second_entry);
            &&& cursor.position.has_next() ==> back.cursor == cursor && there.outcome
                == Outcome::Moved && back.outcome == Outcome::Moved
            &&& !cursor.position.has_next() ==> there.cursor == cursor && there.reader == reader
                && there.outcome == Outcome::AtUpperBound
        }),
{
}

/// `Goto` with a page number from one to the page count leads to the page before
/// that number. With any other number it changes nothing and reports the number as
/// out of range; with an entry that is no number it changes nothing and reports
/// the input as invalid.
pub proof fn lemma_goto(
    reader: ReaderView,
    cursor: CursorView,
    page_entry: Seq<char>,
)
    ensures
        ({
            let after = step(reader, cursor, Command::Goto, page_entry);
            match number_of(page_entry) {
                Some(requested) => if 1 <= requested <= cursor.position.total_pages {
                    &&& after.outcome == Outcome::Moved
                    &&& after.cursor.position.current_page == requested - 1
                    &&& after.cursor.position.total_pages == cursor.position.total_pages
                } else {
                    &&& after.outcome == Outcome::OutOfRange
                    &&& after.cursor == cursor
                    &&& after.reader == reader
                },
                None => {
                    &&& after.outcome == Outcome::InvalidInput
                    &&& after.cursor == cursor
                    &&& after.reader == reader
                },
            }
        }),
{
}

impl SessionCursor {
    /// Carries out one command. `page_entry` is what the user typed when asked for
    /// a page number; only `Goto` reads it. When the outcome says that the store
    /// was written to, the store is due to be saved.
    pub fn execute(
        &mut self,
        reader: &mut Reader,
        command: Command,
        page_entry: &str,
    ) -> (outcome: Outcome)
        ensures
            step(old(reader)@, old(self)@, command, page_entry@) == (Step {
                reader: final(reader)@,
                cursor: final(self)@,
                outcome,
            }),
            outcome.recorded() ==> final(reader)@.get(final(self)@.document_id) == Some(
                final(self)@.position,
            ),
    {
        match command {
            Command::Next => self.next(reader),
            Command::Prev => self.prev(reader),
            Command::Goto => match parse_number(page_entry) {
                Some(requested) => self.goto(reader, requested),
                None => Outcome::InvalidInput,
            },
            Command::Bookmark => {
                self.bookmark(reader);
                Outcome::Bookmarked
            },
            Command::Quit => {
                self.bookmark(reader);
                Outcome::Closed
            },
            Command::Toc => Outcome::ShowToc,
            Command::Info => Outcome::ShowInfo,
            Command::Unknown => Outcome::InvalidInput,
        }
    }
}

} // verus!
