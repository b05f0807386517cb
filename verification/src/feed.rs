//! The scan over the events of a feed.
//!
//! A feed is read in one pass. The scanner keeps a flag for each element it
//! is inside of and the paper of the entry it is in; the flags decide where
//! a text goes, and the paper is handed over when its entry ends.

use crate::error::MalformedFeedError;
use crate::paper::{Paper, PaperView, TextField};
use crate::xml::{attribute_list, parse_attributes, unescape, unescaped, XmlEvent, XmlEventView};
use vstd::prelude::*;

verus! {

/// The elements that hold the text of a field.
#[derive(Debug, Clone, Copy, PartialEq, Eq, Structural)]
pub enum FieldElement {
    Id,
    Title,
    Author,
    Name,
    Summary,
    Published,
    Updated,
    Comment,
    JournalRef,
}

impl FieldElement {
    /// The element of this name, if it holds the text of a field.
    pub open spec fn named(name: Seq<char>) -> Option<FieldElement> {
        if name == "id"@ {
            Some(FieldElement::Id)
        } else if name == "title"@ {
            Some(FieldElement::Title)
        } else if name == "author"@ {
            Some(FieldElement::Author)
        } else if name == "name"@ {
            Some(FieldElement::Name)
        } else if name == "summary"@ {
            Some(FieldElement::Summary)
        } else if name == "published"@ {
            Some(FieldElement::Published)
        } else if name == "updated"@ {
            Some(FieldElement::Updated)
        } else if name == "arxiv:comment"@ {
            Some(FieldElement::Comment)
        } else if name == "arxiv:journal_ref"@ {
            Some(FieldElement::JournalRef)
        } else {
            None
        }
    }

    /// Looks the element up by its name.
    pub fn of(name: &str) -> (element: Option<FieldElement>)
        ensures
            element == FieldElement::named(name@),
    {
        if name.eq("id") {
            Some(FieldElement::Id)
        } else if name.eq("title") {
            Some(FieldElement::Title)
        } else if name.eq("author") {
            Some(FieldElement::Author)
        } else if name.eq("name") {
            Some(FieldElement::Name)
        } else if name.eq("summary") {
            Some(FieldElement::Summary)
        } else if name.eq("published") {
            Some(FieldElement::Published)
        } else if name.eq("updated") {
            Some(FieldElement::Updated)
        } else if name.eq("arxiv:comment") {
            Some(FieldElement::Comment)
        } else if name.eq("arxiv:journal_ref") {
            Some(FieldElement::JournalRef)
        } else {
            None
        }
    }
}

/// The elements that the scan is inside of.
#[derive(Debug, Clone, Copy, PartialEq, Eq, Structural)]
pub struct Flags {
    pub entry: bool,
    pub id: bool,
    pub title: bool,
    pub author: bool,
    pub name: bool,
    pub summary: bool,
    pub published: bool,
    pub updated: bool,
    pub comment: bool,
    pub journal_ref: bool,
}

impl Flags {
    /// Inside of no element.
    pub open spec fn none() -> Flags {
        Flags {
            entry: false,
            id: false,
            title: false,
            author: false,
            name: false,
            summary: false,
            published: false,
            updated: false,
            comment: false,
            journal_ref: false,
        }
    }

    /// The flags after `element` was opened (`inside`) or closed. A `name`
    /// counts only inside of an `author`.
    pub open spec fn marked(self, element: FieldElement, inside: bool) -> Flags {
        match element {
            FieldElement::Id => Flags { id: inside, ..self },
            FieldElement::Title => Flags { title: inside, ..self },
            FieldElement::Author => Flags { author: inside, ..self },
            FieldElement::Name => if self.author {
                Flags { name: inside, ..self }
            } else {
                self
            },
            FieldElement::Summary => Flags { summary: inside, ..self },
            FieldElement::Published => Flags { published: inside, ..self },
            FieldElement::Updated => Flags { updated: inside, ..self },
            FieldElement::Comment => Flags { comment: inside, ..self },
            FieldElement::JournalRef => Flags { journal_ref: inside, ..self },
        }
    }

    /// The field that a text belongs to: that of the first flag that is up,
    /// in this order.
    pub open spec fn field(self) -> Option<TextField> {
        if self.id {
            Some(TextField::Id)
        } else if self.title {
            Some(TextField::Title)
        } else if self.author && self.name {
            Some(TextField::Author)
        } else if self.summary {
            Some(TextField::Abstract)
        } else if self.published {
            Some(TextField::Published)
        } else if self.updated {
            Some(TextField::Updated)
        } else if self.comment {
            Some(TextField::Comment)
        } else if self.journal_ref {
            Some(TextField::JournalRef)
        } else {
            None
        }
    }

    /// All flags down.
    pub fn new() -> (flags: Flags)
        ensures
            flags == Flags::none(),
    {
        Flags {
            entry: false,
            id: false,
            title: false,
            author: false,
            name: false,
            summary: false,
            published: false,
            updated: false,
            comment: false,
            journal_ref: false,
        }
    }

    /// Notes that `element` was opened (`inside`) or closed.
    pub fn mark(&mut self, element: FieldElement, inside: bool)
        ensures
            *final(self) == old(self).marked(element, inside),
    {
        match element {
            FieldElement::Id => {
                self.id = inside;
            },
            FieldElement::Title => {
                self.title = inside;
            },
            FieldElement::Author => {
                self.author = inside;
            },
            FieldElement::Name => {
                if self.author {
                    self.name = inside;
                }
            },
            FieldElement::Summary => {
                self.summary = inside;
            },
            FieldElement::Published => {
                self.published = inside;
            },
            FieldElement::Updated => {
                self.updated = inside;
            },
            FieldElement::Comment => {
                self.comment = inside;
            },
            FieldElement::JournalRef => {
                self.journal_ref = inside;
            },
        }
    }

    /// The field that a text met now belongs to.
    pub fn text_field(&self) -> (field: Option<TextField>)
        ensures
            field == self.field(),
    {
        if self.id {
            Some(TextField::Id)
        } else if self.title {
            Some(TextField::Title)
        } else if self.author && self.name {
            Some(TextField::Author)
        } else if self.summary {
            Some(TextField::Abstract)
        } else if self.published {
            Some(TextField::Published)
        } else if self.updated {
            Some(TextField::Updated)
        } else if self.comment {
            Some(TextField::Comment)
        } else if self.journal_ref {
            Some(TextField::JournalRef)
        } else {
            None
        }
    }
}

/// Where a scan stands: the flags, the paper of the entry that is open, and
/// the papers of the entries that have ended, in the order of the feed.
pub struct ScanState {
    pub flags: Flags,
    pub current: PaperView,
    pub papers: Seq<PaperView>,
}

impl ScanState {
    /// Before the first event.
    pub open spec fn start() -> ScanState {
        ScanState { flags: Flags::none(), current: PaperView::empty(), papers: Seq::empty() }
    }

    /// The state after the tag of the element `name` with these attributes.
    /// Inside of an entry a `link`, a primary category and a `category` are
    /// taken into the paper; a `category` whose attributes cannot be read as
    /// far as its `term` is an error.
    pub open spec fn element(self, name: Seq<char>, attributes: Seq<char>) -> Result<
        ScanState,
        MalformedFeedError,
    > {
        if !self.flags.entry {
            Ok(self)
        } else if name == "link"@ {
            Ok(ScanState { current: self.current.with_link(attribute_list(attributes)), ..self })
        } else if name == "arxiv:primary_category"@ {
            Ok(
                ScanState {
                    current: self.current.with_primary_category(attribute_list(attributes)),
                    ..self
                },
            )
        } else if name == "category"@ {
            match self.current.with_category(attribute_list(attributes)) {
                Some(paper) => Ok(ScanState { current: paper, ..self }),
                None => Err(MalformedFeedError::Attribute),
            }
        } else {
            Ok(self)
        }
    }

    /// The state after character data. Inside of an entry and of the element
    /// of a field it goes to that field, with its entity references
    /// resolved; one that cannot be resolved is an error.
    pub open spec fn text(self, content: Seq<char>) -> Result<ScanState, MalformedFeedError> {
        if self.flags.entry {
            match self.flags.field() {
                Some(field) => match unescaped(content) {
                    Some(text) => Ok(
                        ScanState { current: self.current.with_text(field, text), ..self },
                    ),
                    None => Err(MalformedFeedError::Entity),
                },
                None => Ok(self),
            }
        } else {
            Ok(self)
        }
    }

    /// The state after one event.
    ///
    /// The start of an `entry` begins an empty paper, its end hands the
    /// paper over and leaves an empty one. The start of an element that
    /// holds the text of a field puts its flag up and its end takes the flag
    /// down. Any other element is read for its attributes where it starts,
    /// be it empty or not.
    pub open spec fn step(self, event: XmlEventView) -> Result<ScanState, MalformedFeedError> {
        match event {
            XmlEventView::Start { name, attributes } => if name == "entry"@ {
                Ok(
                    ScanState {
                        flags: Flags { entry: true, ..self.flags },
                        current: PaperView::empty(),
                        papers: self.papers,
                    },
                )
            } else {
                match FieldElement::named(name) {
                    Some(element) => Ok(
                        ScanState { flags: self.flags.marked(element, true), ..self },
                    ),
                    None => self.element(name, attributes),
                }
            },
            XmlEventView::Empty { name, attributes } => self.element(name, attributes),
            XmlEventView::End { name } => if name == "entry"@ {
                Ok(
                    ScanState {
                        flags: Flags { entry: false, ..self.flags },
                        current: PaperView::empty(),
                        papers: self.papers.push(self.current),
                    },
                )
            } else {
                match FieldElement::named(name) {
                    Some(element) => Ok(
                        ScanState { flags: self.flags.marked(element, false), ..self },
                    ),
                    None => Ok(self),
                }
            },
            XmlEventView::Text { content } => self.text(content),
            XmlEventView::Other => Ok(self),
            XmlEventView::Eof => Ok(self),
            XmlEventView::Malformed => Err(MalformedFeedError::Syntax),
        }
    }

    /// The state after these events, one after the other, or the error of
    /// the first event that has one.
    pub open spec fn scan(self, events: Seq<XmlEventView>) -> Result<ScanState, MalformedFeedError>
        decreases events.len(),
    {
        if events.len() == 0 {
            Ok(self)
        } else {
            match self.step(events.first()) {
                Ok(next) => next.scan(events.drop_first()),
                Err(e) => Err(e),
            }
        }
    }
}

/// The papers that a feed with these events holds.
pub open spec fn papers_of(events: Seq<XmlEventView>) -> Result<Seq<PaperView>, MalformedFeedError> {
    match ScanState::start().scan(events) {
        Ok(end) => Ok(end.papers),
        Err(e) => Err(e),
    }
}

/// A scan over the events of one feed.
pub struct FeedScanner {
    pub flags: Flags,
    pub current: Paper,
    pub papers: Vec<Paper>,
}

impl View for FeedScanner {
    type V = ScanState;

    open spec fn view(&self) -> ScanState {
        ScanState { flags: self.flags, current: self.current@, papers: self.papers.deep_view() }
    }
}

impl FeedScanner {
    /// A scanner before the first event of a feed.
    pub fn new() -> (scanner: FeedScanner)
        ensures
            scanner@ == ScanState::start(),
    {
        let scanner = FeedScanner { flags: Flags::new(), current: Paper::default(), papers: Vec::new() };
        assert(scanner.papers.deep_view() =~= Seq::empty());
        scanner
    }

    /// Reads the tag of the element `name` for its attributes.
    pub fn element(&mut self, name: &str, attributes: &str) -> (done: Result<
        (),
        MalformedFeedError,
    >)
        ensures
            match old(self)@.element(name@, attributes@) {
                Ok(next) => done is Ok && final(self)@ == next,
                Err(e) => done == Err::<(), MalformedFeedError>(e) && final(self)@ == old(self)@,
            },
    {
        if !self.flags.entry {
            Ok(())
        } else if name.eq("link") {
            let list = parse_attributes(attributes);
            self.current.set_link(&list);
            Ok(())
        } else if name.eq("arxiv:primary_category") {
            let list = parse_attributes(attributes);
            self.current.set_primary_category(&list);
            Ok(())
        } else if name.eq("category") {
            let list = parse_attributes(attributes);
            self.current.add_category(&list)
        } else {
            Ok(())
        }
    }

    /// Takes in character data.
    pub fn text(&mut self, content: &str) -> (done: Result<(), MalformedFeedError>)
        ensures
            match old(self)@.text(content@) {
                Ok(next) => done is Ok && final(self)@ == next,
                Err(e) => done == Err::<(), MalformedFeedError>(e) && final(self)@ == old(self)@,
            },
    {
        if !self.flags.entry {
            return Ok(());
        }
        match self.flags.text_field() {
            Some(field) => match unescape(content) {
                Some(text) => {
                    self.current.set_text(field, text);
                    Ok(())
                },
                None => Err(MalformedFeedError::Entity),
            },
            None => Ok(()),
        }
    }

    /// Takes in the next event of the feed. After an error the scanner is as
    /// it was.
    pub fn step(&mut self, event: XmlEvent) -> (done: Result<(), MalformedFeedError>)
        ensures
            match old(self)@.step(event@) {
                Ok(next) => done is Ok && final(self)@ == next,
                Err(e) => done == Err::<(), MalformedFeedError>(e) && final(self)@ == old(self)@,
            },
    {
        match event {
            XmlEvent::Start { name, attributes } => {
                if name.as_str().eq("entry") {
                    self.flags.entry = true;
                    self.current = Paper::default();
                    Ok(())
                } else {
                    match FieldElement::of(name.as_str()) {
                        Some(element) => {
                            self.flags.mark(element, true);
                            Ok(())
                        },
                        None => self.element(name.as_str(), attributes.as_str()),
                    }
                }
            },
            XmlEvent::Empty { name, attributes } => self.element(name.as_str(), attributes.as_str()),
            XmlEvent::End { name } => {
                if name.as_str().eq("entry") {
                    let mut paper = Paper::default();
                    std::mem::swap(&mut self.current, &mut paper);
                    let ghost before = self.papers;
                    self.papers.push(paper);
                    assert(self.papers.deep_view() =~= before.deep_view().push(paper@));
                    self.flags.entry = false;
                } else {
                    match FieldElement::of(name.as_str()) {
                        Some(element) => {
                            self.flags.mark(element, false);
                        },
                        None => {},
                    }
                }
                Ok(())
            },
            XmlEvent::Text { content } => self.text(content.as_str()),
            XmlEvent::Other => Ok(()),
            XmlEvent::Eof => Ok(()),
            XmlEvent::Malformed => Err(MalformedFeedError::Syntax),
        }
    }
}

/// Whether `event` is the start tag of an `entry`.
pub open spec fn starts_entry(event: XmlEventView) -> bool {
    event matches XmlEventView::Start { name, .. } && name == "entry"@
}

/// Whether `event` is the end tag of an `entry`.
pub open spec fn ends_entry(event: XmlEventView) -> bool {
    event matches XmlEventView::End { name } && name == "entry"@
}

/// How many entries end among `events`.
pub open spec fn entries_ended(events: Seq<XmlEventView>) -> nat
    decreases events.len(),
{
    if events.len() == 0 {
        0
    } else if ends_entry(events.first()) {
        1 + entries_ended(events.drop_first())
    } else {
        entries_ended(events.drop_first())
    }
}

/// Scanning two runs of events in a row is scanning the second from where
/// the first has led.
pub proof fn lemma_scan_in_a_row(state: ScanState, first: Seq<XmlEventView>, second: Seq<XmlEventView>)
    ensures
        state.scan(first + second) == match state.scan(first) {
            Ok(between) => between.scan(second),
            Err(e) => Err(e),
        },
    decreases first.len(),
{
    if first.len() == 0 {
        assert(first + second == second);
    } else {
        assert((first + second).first() == first.first());
        assert((first + second).drop_first() == first.drop_first() + second);
        match state.step(first.first()) {
            Ok(next) => {
                lemma_scan_in_a_row(next, first.drop_first(), second);
            },
            Err(_) => {},
        }
    }
}

/// A scan hands over one paper for each entry that ends, behind the papers
/// it held before, which stay as they are.
pub proof fn lemma_one_paper_per_entry(state: ScanState, events: Seq<XmlEventView>)
    ensures
        state.scan(events) matches Ok(end) ==> end.papers.len() == state.papers.len()
            + entries_ended(events) && end.papers.take(state.papers.len() as int) == state.papers,
    decreases events.len(),
{
    if events.len() == 0 {
        assert(state.papers.take(state.papers.len() as int) == state.papers);
    } else {
        match state.step(events.first()) {
            Ok(next) => {
                lemma_one_paper_per_entry(next, events.drop_first());
                match next.scan(events.drop_first()) {
                    Ok(end) => {
                        assert(next.papers.take(state.papers.len() as int) == state.papers);
                        assert(end.papers.take(state.papers.len() as int) == end.papers.take(
                            next.papers.len() as int,
                        ).take(state.papers.len() as int));
                    },
                    Err(_) => {},
                }
            },
            Err(_) => {},
        }
    }
}

/// Whether the reader found no fault with any of `events`.
pub open spec fn well_formed(events: Seq<XmlEventView>) -> bool {
    forall|i: int| 0 <= i < events.len() ==> #[trigger] events[i] != XmlEventView::Malformed
}

/// A feed in which no entry starts or ends holds no paper: it is read as an
/// empty list where it is well-formed, and else as a syntax error.
pub proof fn lemma_no_entry_no_paper(events: Seq<XmlEventView>)
    requires
        forall|i: int|
            0 <= i < events.len() ==> !starts_entry(#[trigger] events[i]) && !ends_entry(events[i]),
    ensures
        papers_of(events) == if well_formed(events) {
            Ok::<Seq<PaperView>, MalformedFeedError>(Seq::empty())
        } else {
            Err::<Seq<PaperView>, MalformedFeedError>(MalformedFeedError::Syntax)
        },
{
    lemma_scan_outside_entries(ScanState::start(), events);
}

proof fn lemma_scan_outside_entries(state: ScanState, events: Seq<XmlEventView>)
    requires
        !state.flags.entry,
        forall|i: int|
            0 <= i < events.len() ==> !starts_entry(#[trigger] events[i]) && !ends_entry(events[i]),
    ensures
        well_formed(events) ==> (state.scan(events) matches Ok(end) && end.papers == state.papers),
        !well_formed(events) ==> state.scan(events) == Err::<ScanState, MalformedFeedError>(
            MalformedFeedError::Syntax,
        ),
    decreases events.len(),
{
    if events.len() > 0 {
        let event = events.first();
        assert(!starts_entry(event) && !ends_entry(event));
        let rest = events.drop_first();
        assert forall|i: int| 0 <= i < rest.len() implies !starts_entry(#[trigger] rest[i])
            && !ends_entry(rest[i]) by {
            assert(rest[i] == events[i + 1]);
        }
        if event == XmlEventView::Malformed {
            assert(!well_formed(events));
        } else {
            assert(well_formed(events) <==> well_formed(rest)) by {
                if well_formed(events) {
                    assert forall|i: int| 0 <= i < rest.len() implies #[trigger] rest[i]
                        != XmlEventView::Malformed by {
                        assert(rest[i] == events[i + 1]);
                    }
                }
                if well_formed(rest) {
                    assert forall|i: int| 0 <= i < events.len() implies #[trigger] events[i]
                        != XmlEventView::Malformed by {
                        if i > 0 {
                            assert(events[i] == rest[i - 1]);
                        }
                    }
                }
            }
            let next = state.step(event)->Ok_0;
            lemma_scan_outside_entries(next, rest);
        }
    }
}

proof fn lemma_step_alike(a: ScanState, b: ScanState, event: XmlEventView)
    requires
        a.flags == b.flags,
        a.current == b.current,
    ensures
        match a.step(event) {
            Ok(a_next) => b.step(event) matches Ok(b_next) && a_next.flags == b_next.flags
                && a_next.current == b_next.current && if ends_entry(event) {
                a_next.papers == a.papers.push(a.current) && b_next.papers == b.papers.push(
                    b.current,
                )
            } else {
                a_next.papers == a.papers && b_next.papers == b.papers
            },
            Err(e) => b.step(event) == Err::<ScanState, MalformedFeedError>(e),
        },
{
}

/// What a scan makes of events does not depend on the papers it has handed
/// over before: from two states with the same flags and the same open
/// paper, the same events lead to the same flags and the same open paper,
/// hand over the same papers, and fail alike.
pub proof fn lemma_scan_alike(a: ScanState, b: ScanState, events: Seq<XmlEventView>)
    requires
        a.flags == b.flags,
        a.current == b.current,
    ensures
        match a.scan(events) {
            Ok(a_end) => b.scan(events) matches Ok(b_end) && a_end.flags == b_end.flags
                && a_end.current == b_end.current && a_end.papers.skip(a.papers.len() as int)
                == b_end.papers.skip(b.papers.len() as int),
            Err(e) => b.scan(events) == Err::<ScanState, MalformedFeedError>(e),
        },
    decreases events.len(),
{
    if events.len() == 0 {
        assert(a.papers.skip(a.papers.len() as int) == b.papers.skip(b.papers.len() as int));
    } else {
        let event = events.first();
        let rest = events.drop_first();
        lemma_step_alike(a, b, event);
        if a.step(event) is Ok {
            let a_next = a.step(event)->Ok_0;
            let b_next = b.step(event)->Ok_0;
            lemma_scan_alike(a_next, b_next, rest);
            if a_next.scan(rest) is Ok {
                let a_end = a_next.scan(rest)->Ok_0;
                let b_end = b_next.scan(rest)->Ok_0;
                lemma_one_paper_per_entry(a_next, rest);
                lemma_one_paper_per_entry(b_next, rest);
                lemma_skip_one_less(a_end.papers, a_next.papers, a.papers, a.current);
                lemma_skip_one_less(b_end.papers, b_next.papers, b.papers, b.current);
            }
        }
    }
}

proof fn lemma_skip_one_less(
    all: Seq<PaperView>,
    next: Seq<PaperView>,
    before: Seq<PaperView>,
    paper: PaperView,
)
    requires
        next.len() <= all.len(),
        all.take(next.len() as int) == next,
        next == before.push(paper) || next == before,
    ensures
        next == before ==> all.skip(before.len() as int) == all.skip(next.len() as int),
        next == before.push(paper) ==> all.skip(before.len() as int) == seq![paper] + all.skip(
            next.len() as int,
        ),
{
    if next == before.push(paper) {
        assert(all[before.len() as int] == all.take(next.len() as int)[before.len() as int]);
        assert(all.skip(before.len() as int) =~= seq![paper] + all.skip(next.len() as int));
    }
}

/// An entry takes nothing over from what stood before it: from two states
/// with the same flags, events that begin with the start of an entry lead
/// to the same open paper, hand over the same papers, and fail alike.
pub proof fn lemma_entry_isolated(a: ScanState, b: ScanState, events: Seq<XmlEventView>)
    requires
        a.flags == b.flags,
        events.len() > 0,
        starts_entry(events.first()),
    ensures
        match a.scan(events) {
            Ok(a_end) => b.scan(events) matches Ok(b_end) && a_end.flags == b_end.flags
                && a_end.current == b_end.current && a_end.papers.skip(a.papers.len() as int)
                == b_end.papers.skip(b.papers.len() as int),
            Err(e) => b.scan(events) == Err::<ScanState, MalformedFeedError>(e),
        },
{
    let a_next = a.step(events.first())->Ok_0;
    let b_next = b.step(events.first())->Ok_0;
    lemma_scan_alike(a_next, b_next, events.drop_first());
}

} // verus!
