//! Reading sessions over paginated documents and the progress that outlives them.
//!
//! A [`Reader`] remembers, for every document identity, the page last reached and
//! which document was opened most recently. A [`SessionCursor`] is the live position
//! in one open document; every move it makes is written into the reader at once, so
//! that the remembered progress never lags the cursor. Reading files, talking to the
//! terminal, decoding the document container and laying out a page's markup are left
//! to the caller.

pub mod info;
pub mod page;
pub mod progress;
pub mod reader;
pub mod session;
pub mod shell;
pub mod text;

pub use info::{description_fields, first_value, heading_fields, InfoField};
pub use page::{PageView, LINE_WIDTH};
pub use progress::{BookProgress, Position};
pub use reader::{BookmarkLine, Reader, ReaderState, ReaderView};
pub use session::{CursorView, OpenError, Outcome, SessionCursor};
pub use shell::{parse_command, Command, Step};
