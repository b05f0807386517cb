//! The order in which the API is asked to return its results.

use vstd::prelude::*;

verus! {

/// What the results are ordered by.
#[derive(Clone, Debug)]
pub enum SortBy {
    Relevance,
    LastUpdatedDate,
    SubmittedDate,
}

impl SortBy {
    /// The word for this key in a request.
    pub open spec fn name(self) -> Seq<char> {
        match self {
            SortBy::Relevance => "relevance"@,
            SortBy::LastUpdatedDate => "lastUpdatedDate"@,
            SortBy::SubmittedDate => "submittedDate"@,
        }
    }

    /// Writes the word for this key.
    pub fn to_string(&self) -> (name: String)
        ensures
            name@ == self.name(),
    {
        match self {
            SortBy::Relevance => "relevance".to_owned(),
            SortBy::LastUpdatedDate => "lastUpdatedDate".to_owned(),
            SortBy::SubmittedDate => "submittedDate".to_owned(),
        }
    }
}

impl Default for SortBy {
    fn default() -> (key: SortBy)
        ensures
            key == SortBy::Relevance,
    {
        SortBy::Relevance
    }
}

/// The direction of the order.
#[derive(Clone, Debug)]
pub enum SortOrder {
    Ascending,
    Descending,
}

impl SortOrder {
    /// The word for this direction in a request.
    pub open spec fn name(self) -> Seq<char> {
        match self {
            SortOrder::Ascending => "ascending"@,
            SortOrder::Descending => "descending"@,
        }
    }

    /// Writes the word for this direction.
    pub fn to_string(&self) -> (name: String)
        ensures
            name@ == self.name(),
    {
        match self {
            SortOrder::Ascending => "ascending".to_owned(),
            SortOrder::Descending => "descending".to_owned(),
        }
    }
}

impl Default for SortOrder {
    fn default() -> (order: SortOrder)
        ensures
            order == SortOrder::Ascending,
    {
        SortOrder::Ascending
    }
}

} // verus!
