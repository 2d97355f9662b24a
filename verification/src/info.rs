//! What is shown of a document's description.

use vstd::prelude::*;

verus! {

/// An entry of a document's description.
#[derive(Clone, Copy, Debug, PartialEq, Eq, Structural)]
pub enum InfoField {
    Title,
    Creator,
    Publisher,
    Language,
    Description,
}

impl InfoField {
    /// The name under which a document carries the entry.
    pub open spec fn key_of(self) -> Seq<char> {
        match self {
            InfoField::Title => "title"@,
            InfoField::Creator => "creator"@,
            InfoField::Publisher => "publisher"@,
            InfoField::Language => "language"@,
            InfoField::Description => "description"@,
        }
    }

    /// The name under which a document carries the entry.
    pub fn key(&self) -> (key: &'static str)
        ensures
            key@ == self.key_of(),
    {
        match self {
            InfoField::Title => "title",
            InfoField::Creator => "creator",
            InfoField::Publisher => "publisher",
            InfoField::Language => "language",
            InfoField::Description => "description",
        }
    }
}

/// The entries shown when a document is opened, in the order in which they are
/// shown.
pub fn heading_fields() -> (fields: Vec<InfoField>)
    ensures
        fields@ == seq![InfoField::Title, InfoField::Creator],
{
    vec![InfoField::Title, InfoField::Creator]
}

/// The entries of the full description, in the order in which they are shown.
pub fn description_fields() -> (fields: Vec<InfoField>)
    ensures
        fields@ == seq![
            InfoField::Title,
            InfoField::Creator,
            InfoField::Publisher,
            InfoField::Language,
            InfoField::Description,
        ],
{
    vec![
        InfoField::Title,
        InfoField::Creator,
        InfoField::Publisher,
        InfoField::Language,
        InfoField::Description,
    ]
}

/// What is shown for an entry: the first of its values. An entry that the
/// document does not carry, or carries without a value, is not shown.
pub fn first_value(values: Option<&Vec<String>>) -> (shown: Option<&String>)
    ensures
        (match shown {
            Some(value) => values matches Some(all) && all@.len() > 0 && *value == all@[0],
            None => values matches Some(all) ==> all@.len() == 0,
        }),
{
    match values {
        Some(all) => if all.len() > 0 {
            Some(&all[0])
        } else {
            None
        },
        None => None,
    }
}

} // verus!
