//! The progress store: what is remembered about every document between sessions.

use crate::progress::{BookProgress, Position};
use vstd::prelude::*;

verus! {

/// The remembered progress as a mathematical value: at most one position per
/// document identity, and the identity of the document opened last.
#[verifier::ext_equal]
pub struct ReaderView {
    pub bookmarks: Map<Seq<char>, Position>,
    pub last_read: Option<Seq<char>>,
}

impl ReaderView {
    /// Nothing is remembered.
    pub open spec fn empty() -> ReaderView {
        ReaderView { bookmarks: Map::empty(), last_read: None }
    }

    /// The position remembered for a document, if there is one.
    pub open spec fn get(self, path: Seq<char>) -> Option<Position> {
        if self.bookmarks.contains_key(path) {
            Some(self.bookmarks[path])
        } else {
            None
        }
    }

    /// The store after a position was written for a document: it replaces
    /// whatever was remembered for that document and touches nothing else.
    pub open spec fn record(self, path: Seq<char>, position: Position) -> ReaderView {
        ReaderView { bookmarks: self.bookmarks.insert(path, position), last_read: self.last_read }
    }

    /// The store after a document was opened: it is now the one to continue with.
    pub open spec fn opened(self, path: Seq<char>) -> ReaderView {
        ReaderView { bookmarks: self.bookmarks, last_read: Some(path) }
    }

    /// Every remembered position is on a page of its document.
    pub open spec fn in_bounds(self) -> bool {
        forall|path: Seq<char>|
            self.bookmarks.contains_key(path) ==> (#[trigger] self.bookmarks[path]).in_bounds()
    }

    /// The page at which a document of `total_pages` pages is taken up again: the
    /// remembered page while the document still has it, the first page otherwise.
    pub open spec fn resume_page(self, path: Seq<char>, total_pages: usize) -> usize {
        match self.get(path) {
            Some(position) => if position.current_page < total_pages {
                position.current_page
            } else {
                0
            },
            None => 0,
        }
    }
}

/// The positions that a list of records stands for. Where two records name the same
/// document, the later one counts.
pub open spec fn shelf_of(records: Seq<BookProgress>) -> Map<Seq<char>, Position>
    decreases records.len(),
{
    if records.len() == 0 {
        Map::empty()
    } else {
        shelf_of(records.drop_last()).insert(records.last().path@, records.last().position_of())
    }
}

/// No two records name the same document.
pub open spec fn distinct_paths(records: Seq<BookProgress>) -> bool {
    forall|i: int, j: int| 0 <= i < j < records.len() ==> records[i].path@ != records[j].path@
}

/// The characters of an optional string.
pub open spec fn text_of(text: Option<String>) -> Option<Seq<char>> {
    match text {
        Some(t) => Some(t@),
        None => None,
    }
}

/// A document is on the shelf exactly if some record names it.
pub proof fn lemma_shelf_keys(records: Seq<BookProgress>, path: Seq<char>)
    ensures
        shelf_of(records).contains_key(path) <==> exists|i: int|
            0 <= i < records.len() && #[trigger] records[i].path@ == path,
    decreases records.len(),
{
    if records.len() > 0 {
        let front = records.drop_last();
        lemma_shelf_keys(front, path);
        if shelf_of(front).contains_key(path) {
            let i = choose|i: int| 0 <= i < front.len() && #[trigger] front[i].path@ == path;
            assert(records[i].path@ == path);
        }
        if exists|i: int| 0 <= i < records.len() && #[trigger] records[i].path@ == path {
            let i = choose|i: int| 0 <= i < records.len() && #[trigger] records[i].path@ == path;
            if i < front.len() {
                assert(front[i].path@ == path);
            }
        }
    }
}

/// Among records with distinct identities, each record's document is on the shelf
/// at that record's position.
pub proof fn lemma_shelf_entry(records: Seq<BookProgress>, i: int)
    requires
        distinct_paths(records),
        0 <= i < records.len(),
    ensures
        shelf_of(records).contains_key(records[i].path@),
        shelf_of(records)[records[i].path@] == records[i].position_of(),
    decreases records.len(),
{
    if i < records.len() - 1 {
        let front = records.drop_last();
        lemma_shelf_entry(front, i);
    }
}

/// Among records with distinct identities, the shelf holds as many documents as
/// there are records.
pub proof fn lemma_shelf_len(records: Seq<BookProgress>)
    requires
        distinct_paths(records),
    ensures
        shelf_of(records).dom().finite(),
        shelf_of(records).dom().len() == records.len(),
    decreases records.len(),
{
    if records.len() > 0 {
        let front = records.drop_last();
        lemma_shelf_len(front);
        lemma_shelf_keys(front, records.last().path@);
        assert(!shelf_of(front).contains_key(records.last().path@)) by {
            if shelf_of(front).contains_key(records.last().path@) {
                let i = choose|i: int|
                    0 <= i < front.len() && #[trigger] front[i].path@ == records.last().path@;
                assert(records[i].path@ == records[records.len() - 1].path@);
            }
        }
        assert(shelf_of(records).dom() =~= shelf_of(front).dom().insert(records.last().path@));
    }
}

/// Replacing a record by another one for the same document keeps the identities
/// distinct and changes the shelf at that document only.
proof fn lemma_shelf_replace(records: Seq<BookProgress>, i: int, record: BookProgress)
    requires
        distinct_paths(records),
        0 <= i < records.len(),
        record.path@ == records[i].path@,
    ensures
        distinct_paths(records.update(i, record)),
        shelf_of(records.update(i, record)) == shelf_of(records).insert(
            record.path@,
            record.position_of(),
        ),
    decreases records.len(),
{
    let replaced = records.update(i, record);
    let front = records.drop_last();
    if i == records.len() - 1 {
        assert(replaced.drop_last() =~= front);
        assert(shelf_of(replaced) =~= shelf_of(records).insert(
            record.path@,
            record.position_of(),
        ));
    } else {
        assert(replaced.drop_last() =~= front.update(i, record));
        lemma_shelf_replace(front, i, record);
        assert(shelf_of(replaced) =~= shelf_of(records).insert(
            record.path@,
            record.position_of(),
        ));
    }
}

/// Adding a record for a document that no record names yet keeps the identities
/// distinct and puts the document on the shelf.
proof fn lemma_shelf_push(records: Seq<BookProgress>, record: BookProgress)
    requires
        distinct_paths(records),
        forall|j: int| 0 <= j < records.len() ==> #[trigger] records[j].path@ != record.path@,
    ensures
        distinct_paths(records.push(record)),
        shelf_of(records.push(record)) == shelf_of(records).insert(
            record.path@,
            record.position_of(),
        ),
{
    assert(records.push(record).drop_last() =~= records);
}

/// The remembered progress as it is kept on disk: one record per document and the
/// identity of the document opened last. Any value is accepted; where two records
/// name the same document, the later one counts.
#[derive(Debug)]
pub struct ReaderState {
    pub bookmarks: Vec<BookProgress>,
    pub last_read: Option<String>,
}

impl View for ReaderState {
    type V = ReaderView;

    open spec fn view(&self) -> ReaderView {
        ReaderView { bookmarks: shelf_of(self.bookmarks@), last_read: text_of(self.last_read) }
    }
}

impl Default for ReaderState {
    /// A state in which nothing is remembered.
    fn default() -> (state: ReaderState)
        ensures
            state@ == ReaderView::empty(),
            state.bookmarks@.len() == 0,
    {
        ReaderState { bookmarks: Vec::new(), last_read: None }
    }
}

/// One line of the list of remembered documents.
#[derive(Debug)]
pub struct BookmarkLine {
    /// The line's number in the list, counted from one.
    pub number: usize,
    /// The document's identity.
    pub path: String,
    /// The page reached, counted from one.
    pub page: u128,
    /// The number of pages the document had.
    pub total_pages: usize,
    /// The share of the document read, in whole percent; `None` for a document
    /// without pages.
    pub percent: Option<u128>,
}

impl BookmarkLine {
    /// The line shows this position.
    pub open spec fn shows(&self, position: Position) -> bool {
        &&& self.page == position.page_number_of()
        &&& self.total_pages == position.total_pages
        &&& position.total_pages == 0 <==> self.percent is None
        &&& self.percent matches Some(p) ==> p == position.percent_of()
    }
}

/// The lines list the shelf: they are numbered from one, every line shows the
/// position remembered for its document, no document has two lines, and every
/// remembered document has one.
pub open spec fn lists(lines: Seq<BookmarkLine>, shelf: Map<Seq<char>, Position>) -> bool {
    &&& forall|i: int|
        0 <= i < lines.len() ==> {
            &&& (#[trigger] lines[i]).number == i + 1
            &&& shelf.contains_key(lines[i].path@)
            &&& lines[i].shows(shelf[lines[i].path@])
        }
    &&& forall|i: int, j: int|
        0 <= i < j < lines.len() ==> (#[trigger] lines[i]).path@ != (#[trigger] lines[j]).path@
    &&& forall|path: Seq<char>|
        shelf.contains_key(path) ==> exists|i: int|
            0 <= i < lines.len() && (#[trigger] lines[i]).path@ == path
}

/// The index of the record that names `key`, if one does.
fn index_of(records: &Vec<BookProgress>, key: &String) -> (found: Option<usize>)
    ensures
        (match found {
            Some(i) => i < records.len() && records[i as int].path@ == key@,
            None => forall|j: int| 0 <= j < records.len() ==> #[trigger] records[j].path@ != key@,
        }),
{
    let mut i: usize = 0;
    while i < records.len()
        invariant
            i <= records.len(),
            forall|j: int| 0 <= j < i ==> #[trigger] records[j].path@ != key@,
        decreases records.len() - i,
    {
        if records[i].path == *key {
            return Some(i);
        }
        i = i + 1;
    }
    None
}

/// The progress store. It holds at most one record per document identity and the
/// identity of the document opened last. A document's identity is the canonical
/// absolute path of its file: whoever opens a document resolves its path before
/// the store is asked about it. The store lives in memory; whoever owns it writes
/// [`Reader::state`] out after each change, so that the file never lacks more than
/// the effect of the last command.
pub struct Reader {
    state: ReaderState,
}

impl View for Reader {
    type V = ReaderView;

    closed spec fn view(&self) -> ReaderView {
        self.state@
    }
}

impl Reader {
    #[verifier::type_invariant]
    spec fn well_formed(&self) -> bool {
        distinct_paths(self.state.bookmarks@)
    }

    /// Starts from what was loaded, or from nothing where there was nothing to load
    /// or it could not be read.
    pub fn new(loaded: Option<ReaderState>) -> (reader: Reader)
        ensures
            reader@ == (match loaded {
                Some(state) => state@,
                None => ReaderView::empty(),
            }),
    {
        let mut reader = Reader { state: ReaderState::default() };
        match loaded {
            None => reader,
            Some(state) => {
                let ReaderState { bookmarks, last_read } = state;
                let mut i: usize = 0;
                while i < bookmarks.len()
                    invariant
                        i <= bookmarks.len(),
                        reader@.bookmarks == shelf_of(bookmarks@.take(i as int)),
                        reader@.last_read is None,
                    decreases bookmarks.len() - i,
                {
                    let record = &bookmarks[i];
                    reader.update_progress(
                        record.path.as_str(),
                        record.current_page,
                        record.total_pages,
                    );
                    proof {
                        assert(bookmarks@.take(i + 1).drop_last() =~= bookmarks@.take(i as int));
                    }
                    i = i + 1;
                }
                proof {
                    assert(bookmarks@.take(i as int) =~= bookmarks@);
                    use_type_invariant(&reader);
                }
                reader.state.last_read = last_read;
                reader
            },
        }
    }

    /// What is to be written out: one record per document, no document twice.
    pub fn state(&self) -> (state: &ReaderState)
        ensures
            state@ == self@,
            distinct_paths(state.bookmarks@),
    {
        proof {
            use_type_invariant(self);
        }
        &self.state
    }

    /// The record kept for a document, if there is one.
    pub fn get(&self, path: &str) -> (found: Option<&BookProgress>)
        ensures
            (match found {
                Some(record) => {
                    &&& record.path@ == path@
                    &&& self@.get(path@) == Some(record.position_of())
                },
                None => self@.get(path@) is None,
            }),
    {
        proof {
            use_type_invariant(self);
            lemma_shelf_keys(self.state.bookmarks@, path@);
        }
        let key: String = path.to_owned();
        match index_of(&self.state.bookmarks, &key) {
            Some(i) => {
                proof {
                    lemma_shelf_entry(self.state.bookmarks@, i as int);
                }
                Some(&self.state.bookmarks[i])
            },
            None => None,
        }
    }

    /// Records the position reached in a document. It replaces what was remembered
    /// for that document, so that only the latest position survives; nothing else
    /// changes. The store is then due to be written out.
    pub fn update_progress(&mut self, path: &str, current_page: usize, total_pages: usize)
        ensures
            final(self)@ == old(self)@.record(path@, (Position { current_page, total_pages })),
    {
        proof {
            use_type_invariant(&*self);
        }
        let key: String = path.to_owned();
        let found = index_of(&self.state.bookmarks, &key);
        let record = BookProgress { path: key, current_page, total_pages };
        let mut state = ReaderState::default();
        core::mem::swap(&mut self.state, &mut state);
        match found {
            Some(i) => {
                proof {
                    lemma_shelf_replace(state.bookmarks@, i as int, record);
                }
                state.bookmarks[i] = record;
            },
            None => {
                proof {
                    lemma_shelf_push(state.bookmarks@, record);
                }
                state.bookmarks.push(record);
            },
        }
        self.state = state;
    }

    /// Marks a document as the one opened last, the one to continue with. The store
    /// is then due to be written out.
    pub fn set_last_opened(&mut self, path: &str)
        ensures
            final(self)@ == old(self)@.opened(path@),
    {
        proof {
            use_type_invariant(&*self);
        }
        self.state.last_read = Some(path.to_owned());
    }

    /// The document to continue with: the one opened last, if any was.
    pub fn continue_reading(&self) -> (path: Option<&String>)
        ensures
            (match path {
                Some(p) => self@.last_read == Some(p@),
                None => self@.last_read is None,
            }),
    {
        self.state.last_read.as_ref()
    }

    /// The list of remembered documents, one line each. It is empty exactly when
    /// nothing is remembered.
    pub fn list_bookmarks(&self) -> (lines: Vec<BookmarkLine>)
        ensures
            lists(lines@, self@.bookmarks),
            self@.bookmarks.dom().finite(),
            lines@.len() == self@.bookmarks.dom().len(),
    {
        let records = &self.state.bookmarks;
        let mut lines: Vec<BookmarkLine> = Vec::new();
        let mut i: usize = 0;
        while i < records.len()
            invariant
                i <= records.len(),
                lines@.len() == i,
                forall|k: int|
                    0 <= k < i ==> {
                        &&& (#[trigger] lines[k]).number == k + 1
                        &&& lines[k].path@ == records[k].path@
                        &&& lines[k].shows(records[k].position_of())
                    },
            decreases records.len() - i,
        {
            let record = &records[i];
            let position = record.position();
            lines.push(
                BookmarkLine {
                    number: i + 1,
                    path: record.path.clone(),
                    page: position.page_number(),
                    total_pages: position.total_pages,
                    percent: position.percent(),
                },
            );
            i = i + 1;
        }
        proof {
            use_type_invariant(self);
            lemma_shelf_len(records@);
            assert forall|k: int| 0 <= k < lines@.len() implies {
                &&& (#[trigger] lines@[k]).number == k + 1
                &&& self@.bookmarks.contains_key(lines@[k].path@)
                &&& lines@[k].shows(self@.bookmarks[lines@[k].path@])
            } by {
                lemma_shelf_entry(records@, k);
            }
            assert forall|path: Seq<char>| self@.bookmarks.contains_key(path) implies exists|
                k: int,
            |
                0 <= k < lines@.len() && (#[trigger] lines@[k]).path@ == path by {
                lemma_shelf_keys(records@, path);
                let k = choose|k: int| 0 <= k < records@.len() && #[trigger] records@[k].path@ == path;
                assert(lines@[k].path@ == path);
            }
        }
        lines
    }

    /// The number of documents with a record.
    pub fn len(&self) -> (n: usize)
        ensures
            self@.bookmarks.dom().finite(),
            n == self@.bookmarks.dom().len(),
    {
        proof {
            use_type_invariant(self);
            lemma_shelf_len(self.state.bookmarks@);
        }
        self.state.bookmarks.len()
    }

    /// No document has a record.
    pub fn is_empty(&self) -> (empty: bool)
        ensures
            empty <==> self@.bookmarks =~= Map::<Seq<char>, Position>::empty(),
    {
        proof {
            use_type_invariant(self);
            lemma_shelf_len(self.state.bookmarks@);
            if self.state.bookmarks@.len() > 0 {
                lemma_shelf_entry(self.state.bookmarks@, 0);
            }
        }
        self.state.bookmarks.len() == 0
    }
}

} // verus!
