//! The record that one entry of a feed is turned into.

use crate::error::MalformedFeedError;
use crate::text::{clean_abstract, cleaned_abstract};
use crate::time::{parse_rfc3339, rfc3339_moment, Moment};
use crate::xml::{
    find_first, find_last, first_value, has_attribute, has_pair, last_value, Attribute,
    AttributeView, Lookup,
};
use vstd::pervasive::unreached;
use vstd::prelude::*;

verus! {

/// One search result.
///
/// The texts are empty and the lists without items where the entry did not
/// give them.
#[derive(Debug, Clone)]
pub struct Paper {
    pub id: String,
    pub title: String,
    pub authors: Vec<String>,
    pub abstract_text: String,
    pub published: String,
    pub updated: String,
    pub doi: String,
    pub comment: Vec<String>,
    pub journal_ref: String,
    pub pdf_url: String,
    pub primary_category: String,
    pub categories: Vec<String>,
}

/// A paper as contracts speak of it: its texts as sequences of characters.
pub struct PaperView {
    pub id: Seq<char>,
    pub title: Seq<char>,
    pub authors: Seq<Seq<char>>,
    pub abstract_text: Seq<char>,
    pub published: Seq<char>,
    pub updated: Seq<char>,
    pub doi: Seq<char>,
    pub comment: Seq<Seq<char>>,
    pub journal_ref: Seq<char>,
    pub pdf_url: Seq<char>,
    pub primary_category: Seq<char>,
    pub categories: Seq<Seq<char>>,
}

impl View for Paper {
    type V = PaperView;

    open spec fn view(&self) -> PaperView {
        PaperView {
            id: self.id@,
            title: self.title@,
            authors: self.authors.deep_view(),
            abstract_text: self.abstract_text@,
            published: self.published@,
            updated: self.updated@,
            doi: self.doi@,
            comment: self.comment.deep_view(),
            journal_ref: self.journal_ref@,
            pdf_url: self.pdf_url@,
            primary_category: self.primary_category@,
            categories: self.categories.deep_view(),
        }
    }
}

impl DeepView for Paper {
    type V = PaperView;

    open spec fn deep_view(&self) -> PaperView {
        self@
    }
}

/// The fields of a paper that are filled from the text of an element.
#[derive(Debug, Clone, Copy, PartialEq, Eq, Structural)]
pub enum TextField {
    Id,
    Title,
    Author,
    Abstract,
    Published,
    Updated,
    Comment,
    JournalRef,
}

impl PaperView {
    /// The paper of which nothing is known yet.
    pub open spec fn empty() -> PaperView {
        PaperView {
            id: Seq::empty(),
            title: Seq::empty(),
            authors: Seq::empty(),
            abstract_text: Seq::empty(),
            published: Seq::empty(),
            updated: Seq::empty(),
            doi: Seq::empty(),
            comment: Seq::empty(),
            journal_ref: Seq::empty(),
            pdf_url: Seq::empty(),
            primary_category: Seq::empty(),
            categories: Seq::empty(),
        }
    }

    /// The paper after `text` was met in the element of `field`: an author
    /// or a comment more, an abstract cleaned of line feeds and of the
    /// whitespace around it, or the text in place of what the field held.
    pub open spec fn with_text(self, field: TextField, text: Seq<char>) -> PaperView {
        match field {
            TextField::Id => PaperView { id: text, ..self },
            TextField::Title => PaperView { title: text, ..self },
            TextField::Author => PaperView { authors: self.authors.push(text), ..self },
            TextField::Abstract => PaperView { abstract_text: clean_abstract(text), ..self },
            TextField::Published => PaperView { published: text, ..self },
            TextField::Updated => PaperView { updated: text, ..self },
            TextField::Comment => PaperView { comment: self.comment.push(text), ..self },
            TextField::JournalRef => PaperView { journal_ref: text, ..self },
        }
    }

    /// The paper after a `link` with these attributes: where one of them is
    /// `title="pdf"` the last `href` is the PDF's address, else where one is
    /// `title="doi"` it is the DOI, and any other link changes nothing.
    pub open spec fn with_link(self, attributes: Seq<Option<AttributeView>>) -> PaperView {
        match last_value(attributes, "href"@) {
            Some(href) => if has_attribute(attributes, "title"@, "pdf"@) {
                PaperView { pdf_url: href, ..self }
            } else if has_attribute(attributes, "title"@, "doi"@) {
                PaperView { doi: href, ..self }
            } else {
                self
            },
            None => self,
        }
    }

    /// The paper after a primary category with these attributes: the last
    /// `term` takes the place of the code, and without one nothing changes.
    pub open spec fn with_primary_category(
        self,
        attributes: Seq<Option<AttributeView>>,
    ) -> PaperView {
        match last_value(attributes, "term"@) {
            Some(term) => PaperView { primary_category: term, ..self },
            None => self,
        }
    }

    /// The paper after a `category` with these attributes, where they can be
    /// read as far as the first `term`: that code is one more category, and
    /// without one nothing changes.
    pub open spec fn with_category(self, attributes: Seq<Option<AttributeView>>) -> Option<
        PaperView,
    > {
        match first_value(attributes, "term"@) {
            Lookup::Found(term) => Some(
                PaperView { categories: self.categories.push(term), ..self },
            ),
            Lookup::Absent => Some(self),
            Lookup::Malformed => None,
        }
    }
}

/// The texts of a list to which `text` was added.
pub proof fn lemma_pushed_texts(before: Vec<String>, after: Vec<String>, text: String)
    requires
        after@ == before@.push(text),
    ensures
        after.deep_view() == before.deep_view().push(text@),
{
    assert(after.deep_view() =~= before.deep_view().push(text@));
}

impl Paper {
    /// The paper of which nothing is known yet.
    pub fn default() -> (paper: Paper)
        ensures
            paper@ == PaperView::empty(),
    {
        let paper = Paper {
            id: String::new(),
            title: String::new(),
            authors: Vec::new(),
            abstract_text: String::new(),
            published: String::new(),
            updated: String::new(),
            doi: String::new(),
            comment: Vec::new(),
            journal_ref: String::new(),
            pdf_url: String::new(),
            primary_category: String::new(),
            categories: Vec::new(),
        };
        assert(paper.authors.deep_view() =~= Seq::empty());
        assert(paper.comment.deep_view() =~= Seq::empty());
        assert(paper.categories.deep_view() =~= Seq::empty());
        paper
    }

    /// The moment of publication, for a paper whose `published` is in the
    /// notation of RFC 3339.
    pub fn published2utc(&self) -> (moment: Moment)
        requires
            rfc3339_moment(self.published@) is Some,
        ensures
            rfc3339_moment(self.published@) == Some(moment),
    {
        match parse_rfc3339(self.published.as_str()) {
            Some(moment) => moment,
            None => unreached(),
        }
    }

    /// The moment of the last update, for a paper whose `updated` is in the
    /// notation of RFC 3339.
    pub fn updated2utc(&self) -> (moment: Moment)
        requires
            rfc3339_moment(self.updated@) is Some,
        ensures
            rfc3339_moment(self.updated@) == Some(moment),
    {
        match parse_rfc3339(self.updated.as_str()) {
            Some(moment) => moment,
            None => unreached(),
        }
    }

    /// The moment of publication, or `None` where `published` is not in the
    /// notation of RFC 3339.
    pub fn published_utc(&self) -> (moment: Option<Moment>)
        ensures
            moment == rfc3339_moment(self.published@),
    {
        match parse_rfc3339(self.published.as_str()) {
            Some(_) => Some(self.published2utc()),
            None => None,
        }
    }

    /// The moment of the last update, or `None` where `updated` is not in
    /// the notation of RFC 3339.
    pub fn updated_utc(&self) -> (moment: Option<Moment>)
        ensures
            moment == rfc3339_moment(self.updated@),
    {
        match parse_rfc3339(self.updated.as_str()) {
            Some(_) => Some(self.updated2utc()),
            None => None,
        }
    }

    /// Takes in the text of the element that stands for `field`.
    pub fn set_text(&mut self, field: TextField, text: String)
        ensures
            final(self)@ == old(self)@.with_text(field, text@),
    {
        match field {
            TextField::Id => {
                self.id = text;
            },
            TextField::Title => {
                self.title = text;
            },
            TextField::Author => {
                let ghost before = self.authors;
                self.authors.push(text);
                proof {
                    lemma_pushed_texts(before, self.authors, text);
                }
            },
            TextField::Abstract => {
                self.abstract_text = cleaned_abstract(text.as_str());
            },
            TextField::Published => {
                self.published = text;
            },
            TextField::Updated => {
                self.updated = text;
            },
            TextField::Comment => {
                let ghost before = self.comment;
                self.comment.push(text);
                proof {
                    lemma_pushed_texts(before, self.comment, text);
                }
            },
            TextField::JournalRef => {
                self.journal_ref = text;
            },
        }
    }

    /// Takes in a `link` element with these attributes.
    pub fn set_link(&mut self, attributes: &Vec<Option<Attribute>>)
        ensures
            final(self)@ == old(self)@.with_link(attributes.deep_view()),
    {
        let is_pdf = has_pair(attributes, "title", "pdf");
        let is_doi = has_pair(attributes, "title", "doi");
        match find_last(attributes, "href") {
            Some(href) => {
                if is_pdf {
                    self.pdf_url = href;
                } else if is_doi {
                    self.doi = href;
                }
            },
            None => {},
        }
    }

    /// Takes in a primary category element with these attributes.
    pub fn set_primary_category(&mut self, attributes: &Vec<Option<Attribute>>)
        ensures
            final(self)@ == old(self)@.with_primary_category(attributes.deep_view()),
    {
        match find_last(attributes, "term") {
            Some(term) => {
                self.primary_category = term;
            },
            None => {},
        }
    }

    /// Takes in a `category` element with these attributes, unless a
    /// malformed one stands before its `term`.
    pub fn add_category(&mut self, attributes: &Vec<Option<Attribute>>) -> (done: Result<
        (),
        MalformedFeedError,
    >)
        ensures
            match old(self)@.with_category(attributes.deep_view()) {
                Some(paper) => done is Ok && final(self)@ == paper,
                None => done == Err::<(), MalformedFeedError>(MalformedFeedError::Attribute)
                    && final(self)@ == old(self)@,
            },
    {
        match find_first(attributes, "term") {
            Ok(Some(term)) => {
                let ghost before = self.categories;
                self.categories.push(term);
                proof {
                    lemma_pushed_texts(before, self.categories, term);
                }
                Ok(())
            },
            Ok(None) => Ok(()),
            Err(_) => Err(MalformedFeedError::Attribute),
        }
    }
}

} // verus!
