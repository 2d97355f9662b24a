//! What is shown of a page once its content was asked for and laid out.

use vstd::prelude::*;

verus! {

/// The number of columns to which page text is to be wrapped.
pub const LINE_WIDTH: usize = 80;

/// What there is to show of a page.
#[derive(Debug)]
pub enum PageView {
    /// The page's text, laid out in lines.
    Text(String),
    /// The page's content could not be read from the document.
    Unreadable,
    /// The page's content was read but could not be laid out.
    Unrenderable,
}

/// A page view as a mathematical value.
#[verifier::ext_equal]
pub enum PageModel {
    Text(Seq<char>),
    Unreadable,
    Unrenderable,
}

impl View for PageView {
    type V = PageModel;

    open spec fn view(&self) -> PageModel {
        match self {
            PageView::Text(t) => PageModel::Text(t@),
            PageView::Unreadable => PageModel::Unreadable,
            PageView::Unrenderable => PageModel::Unrenderable,
        }
    }
}

impl PageView {
    /// The view for what came back when the current page was fetched and laid out:
    /// `None` where the document could not supply the page, an error where the
    /// renderer could not lay out what the document supplied, and otherwise the
    /// text that the renderer made of it.
    pub fn of_rendered(rendered: Option<Result<String, ()>>) -> (page: PageView)
        ensures
            page@ == (match rendered {
                Some(Ok(text)) => PageModel::Text(text@),
                Some(Err(_)) => PageModel::Unrenderable,
                None => PageModel::Unreadable,
            }),
    {
        match rendered {
            Some(Ok(text)) => PageView::Text(text),
            Some(Err(_)) => PageView::Unrenderable,
            None => PageView::Unreadable,
        }
    }

    /// The text to print, if the page has any.
    pub fn text(&self) -> (text: Option<&String>)
        ensures
            (match text {
                Some(t) => self@ == PageModel::Text(t@),
                None => !(self@ is Text),
            }),
    {
        match self {
            PageView::Text(t) => Some(t),
            _ => None,
        }
    }
}

} // verus!
