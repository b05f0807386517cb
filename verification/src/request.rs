//! A request to the API: the search expression with paging and order, the
//! URL that asks for it, and the reading of the feed that answers it.

use crate::encoding::{plus_for_space, space_as_plus};
use crate::error::{ContractError, MalformedFeedError};
use crate::feed::{papers_of, FeedScanner, ScanState};
use crate::paper::Paper;
use crate::query::QueryParams;
use crate::sort::{SortBy, SortOrder};
use crate::text::{decimal, decimal_string};
use crate::xml::{document_events, next_event, open_reader, unread, XmlEvent};
use vstd::prelude::*;
use vstd::string::StringExecFns;

verus! {

/// A search request. What is `None` is left out of the URL, and the API
/// then goes by its own default.
#[derive(Clone, Debug)]
pub struct ArXiv {
    pub args: QueryParams,
    /// How many results to skip.
    pub start: Option<u64>,
    /// How many results to return at most.
    pub max_resutls: Option<u64>,
    pub sort_by: Option<SortBy>,
    pub sort_order: Option<SortOrder>,
}

/// A parameter of the query string with a number for its value, or nothing.
pub open spec fn number_parameter(name: Seq<char>, value: Option<u64>) -> Seq<char> {
    match value {
        Some(n) => name + decimal(n as nat),
        None => Seq::empty(),
    }
}

/// A parameter of the query string with a word for its value, or nothing.
pub open spec fn word_parameter(name: Seq<char>, value: Option<Seq<char>>) -> Seq<char> {
    match value {
        Some(word) => name + word,
        None => Seq::empty(),
    }
}

impl ArXiv {
    /// The word for the sort key, where one was set.
    pub open spec fn sort_by_name(self) -> Option<Seq<char>> {
        match self.sort_by {
            Some(key) => Some(key.name()),
            None => None,
        }
    }

    /// The word for the sort order, where one was set.
    pub open spec fn sort_order_name(self) -> Option<Seq<char>> {
        match self.sort_order {
            Some(order) => Some(order.name()),
            None => None,
        }
    }

    /// The query string: the expression with `+` for each encoded space,
    /// then the parameters that were set, each in its fixed place.
    pub open spec fn query_text(self) -> Seq<char> {
        plus_for_space(self.args.rendered()) + number_parameter("&start="@, self.start)
            + number_parameter("&max_results="@, self.max_resutls) + word_parameter(
            "&sortBy="@,
            self.sort_by_name(),
        ) + word_parameter("&sortOrder="@, self.sort_order_name())
    }

    /// The URL of the request.
    pub open spec fn url(self) -> Seq<char> {
        "http://export.arxiv.org/api/query?search_query="@ + self.query_text()
    }

    /// A request for `args`, with nothing else set.
    pub fn from_args(args: QueryParams) -> (request: Self)
        ensures
            request.args == args,
            request.start is None,
            request.max_resutls is None,
            request.sort_by is None,
            request.sort_order is None,
    {
        ArXiv { args: args, max_resutls: None, start: None, sort_by: None, sort_order: None }
    }

    /// Sets how many results to skip.
    pub fn start(&mut self, start: u64) -> (request: &mut Self)
        ensures
            *request == (ArXiv { start: Some(start), ..*old(self) }),
            *final(self) == *final(request),
    {
        self.start = Some(start);
        self
    }

    /// Sets how many results to return at most.
    pub fn max_results(&mut self, max_results: u64) -> (request: &mut Self)
        ensures
            *request == (ArXiv { max_resutls: Some(max_results), ..*old(self) }),
            *final(self) == *final(request),
    {
        self.max_resutls = Some(max_results);
        self
    }

    /// Sets what the results are ordered by.
    pub fn sort_by(&mut self, sort_by: SortBy) -> (request: &mut Self)
        ensures
            *request == (ArXiv { sort_by: Some(sort_by), ..*old(self) }),
            *final(self) == *final(request),
    {
        self.sort_by = Some(sort_by);
        self
    }

    /// Sets the direction of the order.
    pub fn sort_order(&mut self, sort_order: SortOrder) -> (request: &mut Self)
        ensures
            *request == (ArXiv { sort_order: Some(sort_order), ..*old(self) }),
            *final(self) == *final(request),
    {
        self.sort_order = Some(sort_order);
        self
    }

    /// Writes the URL that asks the API for this request.
    pub fn build_query(&self) -> (url: String)
        requires
            self.args.valid(),
        ensures
            url@ == self.url(),
    {
        let expression = self.args.to_string();
        let mut query = space_as_plus(expression.as_str());
        let ghost q0 = query@;
        if let Some(start) = &self.start {
            query.append("&start=");
            query.append(decimal_string(*start).as_str());
        }
        let ghost q1 = query@;
        assert(q1 == q0 + number_parameter("&start="@, self.start));
        if let Some(max_results) = &self.max_resutls {
            query.append("&max_results=");
            query.append(decimal_string(*max_results).as_str());
        }
        let ghost q2 = query@;
        assert(q2 == q1 + number_parameter("&max_results="@, self.max_resutls));
        if let Some(sort_by) = &self.sort_by {
            query.append("&sortBy=");
            query.append(sort_by.to_string().as_str());
        }
        let ghost q3 = query@;
        assert(q3 == q2 + word_parameter("&sortBy="@, self.sort_by_name()));
        if let Some(sort_order) = &self.sort_order {
            query.append("&sortOrder=");
            query.append(sort_order.to_string().as_str());
        }
        assert(query@ == q3 + word_parameter("&sortOrder="@, self.sort_order_name()));
        let mut url = "http://export.arxiv.org/api/query?search_query=".to_owned();
        url.append(query.as_str());
        url
    }

    /// Writes the URL of this request, or says why its expression cannot be
    /// written out: nothing is built from a date range whose ends are not
    /// twelve digits each.
    pub fn try_build_query(&self) -> (url: Result<String, ContractError>)
        ensures
            self.args.valid() ==> (url matches Ok(text) && text@ == self.url()),
            !self.args.valid() ==> (url matches Err(e) && e == ContractError::Timestamp),
    {
        match self.args.check() {
            Ok(()) => Ok(self.build_query()),
            Err(e) => Err(e),
        }
    }

    /// Reads the feed `xml` and hands out its papers, one for each entry,
    /// in the order of the entries. A feed that cannot be read gives no
    /// papers at all.
    pub fn parse_xml(&self, xml: String) -> (papers: Result<Vec<Paper>, MalformedFeedError>)
        ensures
            match papers_of(document_events(xml@)) {
                Ok(list) => papers matches Ok(found) && found.deep_view() == list,
                Err(e) => papers matches Err(error) && error == e,
            },
    {
        let mut reader = open_reader(xml.as_str());
        let mut scanner = FeedScanner::new();
        loop
            invariant_except_break
                ScanState::start().scan(document_events(xml@)) == scanner@.scan(unread(reader)),
            ensures
                ScanState::start().scan(document_events(xml@)) == Ok::<
                    ScanState,
                    MalformedFeedError,
                >(scanner@),
            decreases unread(reader).len(),
        {
            let ghost events = unread(reader);
            let event = next_event(&mut reader);
            if let XmlEvent::Eof = event {
                assert(events.len() == 0);
                break ;
            }
            assert(events.len() > 0);
            assert(event@ == events.first());
            match scanner.step(event) {
                Ok(()) => {},
                Err(e) => {
                    return Err(e);
                },
            }
        }
        Ok(scanner.papers)
    }
}

impl Default for ArXiv {
    fn default() -> (request: ArXiv)
        ensures
            request.args matches QueryParams::Title(text) && text@ == QueryParams::default_text(),
            request.start is None,
            request.max_resutls is None,
            request.sort_by is None,
            request.sort_order is None,
    {
        ArXiv {
            args: QueryParams::default(),
            max_resutls: None,
            start: None,
            sort_by: None,
            sort_order: None,
        }
    }
}

} // verus!
