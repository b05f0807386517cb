use arxiv_tools::feed::{FeedScanner, FieldElement, Flags};
use arxiv_tools::paper::TextField;
use arxiv_tools::time::Moment;
use arxiv_tools::xml::{find_first, find_last, has_pair, Attribute, XmlEvent};
use arxiv_tools::{ArXiv, MalformedFeedError, Paper, QueryParams};

fn parse(xml: &str) -> Result<Vec<Paper>, MalformedFeedError> {
    ArXiv::from_args(QueryParams::title("x")).parse_xml(xml.to_string())
}

fn attribute(key: &str, value: &str) -> Option<Attribute> {
    Some(Attribute { key: key.to_string(), value: value.to_string() })
}

fn start(name: &str, attributes: &str) -> XmlEvent {
    XmlEvent::Start { name: name.to_string(), attributes: attributes.to_string() }
}

fn empty(name: &str, attributes: &str) -> XmlEvent {
    XmlEvent::Empty { name: name.to_string(), attributes: attributes.to_string() }
}

fn end(name: &str) -> XmlEvent {
    XmlEvent::End { name: name.to_string() }
}

fn text(content: &str) -> XmlEvent {
    XmlEvent::Text { content: content.to_string() }
}

const FEED: &str = r#"<?xml version="1.0" encoding="UTF-8"?>
<feed xmlns="http://www.w3.org/2005/Atom">
  <link href="http://arxiv.org/api/query?search_query%3Dti%3A%22attention%22" rel="self" type="application/atom+xml"/>
  <title type="html">ArXiv Query: search_query=ti:"attention"</title>
  <id>http://arxiv.org/api/cHxbiOdZaP56ODnBPIenZhzg5f8</id>
  <updated>2024-12-02T00:00:00-05:00</updated>
  <opensearch:totalResults xmlns:opensearch="http://a9.com/-/spec/opensearch/1.1/">2</opensearch:totalResults>
  <entry>
    <id>http://arxiv.org/abs/1706.03762v7</id>
    <updated>2023-08-02T00:41:18Z</updated>
    <published>2017-06-12T17:57:34Z</published>
    <title>Attention Is All You Need</title>
    <summary>  The dominant sequence transduction models are based on complex recurrent or
convolutional neural networks in an encoder-decoder configuration.
</summary>
    <author>
      <name>Ashish Vaswani</name>
    </author>
    <author>
      <name>Noam Shazeer</name>
    </author>
    <arxiv:doi xmlns:arxiv="http://arxiv.org/schemas/atom">10.1000/example</arxiv:doi>
    <link title="doi" href="http://dx.doi.org/10.1000/example" rel="related"/>
    <arxiv:comment xmlns:arxiv="http://arxiv.org/schemas/atom">15 pages, 5 figures</arxiv:comment>
    <arxiv:journal_ref xmlns:arxiv="http://arxiv.org/schemas/atom">NeurIPS 2017</arxiv:journal_ref>
    <link href="http://arxiv.org/abs/1706.03762v7" rel="alternate" type="text/html"/>
    <link title="pdf" href="http://arxiv.org/pdf/1706.03762v7" rel="related" type="application/pdf"/>
    <arxiv:primary_category xmlns:arxiv="http://arxiv.org/schemas/atom" term="cs.CL" scheme="http://arxiv.org/schemas/atom"/>
    <category term="cs.CL" scheme="http://arxiv.org/schemas/atom"/>
    <category term="cs.LG" scheme="http://arxiv.org/schemas/atom"/>
  </entry>
  <entry>
    <id>http://arxiv.org/abs/2401.00001v1</id>
    <updated>2024-01-01T00:00:00Z</updated>
    <published>2024-01-01T00:00:00Z</published>
    <title>Second &amp; Last</title>
    <summary>Short.</summary>
    <author>
      <name>Only Author</name>
    </author>
    <link href="http://arxiv.org/abs/2401.00001v1" rel="alternate" type="text/html"/>
    <arxiv:primary_category xmlns:arxiv="http://arxiv.org/schemas/atom" term="cs.AI" scheme="http://arxiv.org/schemas/atom"/>
    <category term="cs.AI" scheme="http://arxiv.org/schemas/atom"/>
  </entry>
</feed>
"#;

#[test]
fn feed_of_the_api_is_read_in_full() {
    let papers = parse(FEED).unwrap();
    assert_eq!(papers.len(), 2);
    let first = &papers[0];
    assert_eq!(first.id, "http://arxiv.org/abs/1706.03762v7");
    assert_eq!(first.title, "Attention Is All You Need");
    assert_eq!(first.authors, vec!["Ashish Vaswani", "Noam Shazeer"]);
    assert_eq!(
        first.abstract_text,
        "The dominant sequence transduction models are based on complex recurrent or\
convolutional neural networks in an encoder-decoder configuration."
    );
    assert_eq!(first.published, "2017-06-12T17:57:34Z");
    assert_eq!(first.updated, "2023-08-02T00:41:18Z");
    assert_eq!(first.doi, "http://dx.doi.org/10.1000/example");
    assert_eq!(first.comment, vec!["15 pages, 5 figures"]);
    assert_eq!(first.journal_ref, "NeurIPS 2017");
    assert_eq!(first.pdf_url, "http://arxiv.org/pdf/1706.03762v7");
    assert_eq!(first.primary_category, "cs.CL");
    assert_eq!(first.categories, vec!["cs.CL", "cs.LG"]);
    let second = &papers[1];
    assert_eq!(second.id, "http://arxiv.org/abs/2401.00001v1");
    assert_eq!(second.title, "Second & Last");
    assert_eq!(second.authors, vec!["Only Author"]);
    assert_eq!(second.abstract_text, "Short.");
    assert_eq!(second.published, "2024-01-01T00:00:00Z");
    assert_eq!(second.updated, "2024-01-01T00:00:00Z");
    assert_eq!(second.doi, "");
    assert!(second.comment.is_empty());
    assert_eq!(second.journal_ref, "");
    assert_eq!(second.pdf_url, "");
    assert_eq!(second.primary_category, "cs.AI");
    assert_eq!(second.categories, vec!["cs.AI"]);
}

#[test]
fn one_entry_with_author_category_and_pdf_link() {
    let xml = r#"<feed><entry><author><name>A. Author</name></author>
<category term="cs.AI"/><link title="pdf" href="http://arxiv.org/pdf/1"/></entry></feed>"#;
    let papers = parse(xml).unwrap();
    assert_eq!(papers.len(), 1);
    assert_eq!(papers[0].authors.len(), 1);
    assert_eq!(papers[0].authors[0], "A. Author");
    assert_eq!(papers[0].categories.len(), 1);
    assert_eq!(papers[0].categories[0], "cs.AI");
    assert_eq!(papers[0].pdf_url, "http://arxiv.org/pdf/1");
    assert_eq!(papers[0].doi, "");
}

#[test]
fn feed_without_entries_is_empty() {
    let xml = r#"<?xml version="1.0"?><feed><title>none</title><id>x</id>
<link href="http://x" title="pdf"/><category term="cs.AI"/></feed>"#;
    assert!(parse(xml).unwrap().is_empty());
    assert!(parse("").unwrap().is_empty());
    assert!(parse("<feed/>").unwrap().is_empty());
}

#[test]
fn two_entries_keep_to_themselves() {
    let xml = r#"<feed>
<entry><id>1</id><title>One</title><author><name>A</name></author>
<arxiv:comment>a comment</arxiv:comment><arxiv:journal_ref>a journal</arxiv:journal_ref>
<link title="pdf" href="pdf-one"/><link title="doi" href="doi-one"/>
<arxiv:primary_category term="cs.AI"/><category term="cs.AI"/><category term="cs.LG"/>
<summary>a summary</summary><published>2024-01-01T00:00:00Z</published><updated>2024-01-02T00:00:00Z</updated></entry>
<entry><id>2</id></entry>
</feed>"#;
    let papers = parse(xml).unwrap();
    assert_eq!(papers.len(), 2);
    assert_eq!(papers[0].id, "1");
    assert_eq!(papers[0].title, "One");
    assert_eq!(papers[0].authors, vec!["A"]);
    assert_eq!(papers[0].comment, vec!["a comment"]);
    assert_eq!(papers[0].journal_ref, "a journal");
    assert_eq!(papers[0].pdf_url, "pdf-one");
    assert_eq!(papers[0].doi, "doi-one");
    assert_eq!(papers[0].primary_category, "cs.AI");
    assert_eq!(papers[0].categories, vec!["cs.AI", "cs.LG"]);
    assert_eq!(papers[0].abstract_text, "a summary");
    assert_eq!(papers[0].published, "2024-01-01T00:00:00Z");
    assert_eq!(papers[0].updated, "2024-01-02T00:00:00Z");
    let second = &papers[1];
    assert_eq!(second.id, "2");
    assert_eq!(second.title, "");
    assert!(second.authors.is_empty());
    assert!(second.comment.is_empty());
    assert_eq!(second.journal_ref, "");
    assert_eq!(second.pdf_url, "");
    assert_eq!(second.doi, "");
    assert_eq!(second.primary_category, "");
    assert!(second.categories.is_empty());
    assert_eq!(second.abstract_text, "");
    assert_eq!(second.published, "");
    assert_eq!(second.updated, "");
}

#[test]
fn abstract_is_stored_trimmed_and_without_newlines() {
    let xml = "<feed><entry><summary>\n   first line\nsecond line  \n\n</summary></entry></feed>";
    let papers = parse(xml).unwrap();
    assert_eq!(papers[0].abstract_text, "first linesecond line");
}

#[test]
fn other_texts_are_kept_as_they_stand() {
    let xml = "<feed><entry><title> spaced\n title </title></entry></feed>";
    assert_eq!(parse(xml).unwrap()[0].title, " spaced\n title ");
}

#[test]
fn entities_are_resolved() {
    let xml = "<feed><entry><title>a &lt; b &amp;&amp; c &gt; d &#65;&#x42;</title>\
<summary> &quot;q&quot; &apos;a&apos; </summary></entry></feed>";
    let papers = parse(xml).unwrap();
    assert_eq!(papers[0].title, "a < b && c > d AB");
    assert_eq!(papers[0].abstract_text, "\"q\" 'a'");
}

#[test]
fn later_text_takes_the_place_of_earlier_text() {
    let xml = "<feed><entry><id>1</id><id>2</id><title>a</title><title>b</title></entry></feed>";
    let papers = parse(xml).unwrap();
    assert_eq!(papers[0].id, "2");
    assert_eq!(papers[0].title, "b");
}

#[test]
fn authors_and_comments_may_repeat() {
    let xml = "<feed><entry><author><name>A</name></author><author><name>A</name></author>\
<arxiv:comment>c</arxiv:comment><arxiv:comment>c</arxiv:comment>\
<category term=\"x\"/><category term=\"x\"/></entry></feed>";
    let papers = parse(xml).unwrap();
    assert_eq!(papers[0].authors, vec!["A", "A"]);
    assert_eq!(papers[0].comment, vec!["c", "c"]);
    assert_eq!(papers[0].categories, vec!["x", "x"]);
}

#[test]
fn name_counts_only_inside_author() {
    let xml = "<feed><entry><name>nobody</name><author>A<name>B</name>C</author></entry></feed>";
    let papers = parse(xml).unwrap();
    assert_eq!(papers[0].authors, vec!["B"]);
}

#[test]
fn text_outside_entries_goes_nowhere() {
    let xml = "<feed><id>feed</id><title>feed</title><entry><published>p</published></entry>\
<id>after</id></feed>";
    let papers = parse(xml).unwrap();
    assert_eq!(papers.len(), 1);
    assert_eq!(papers[0].id, "");
    assert_eq!(papers[0].title, "");
    assert_eq!(papers[0].published, "p");
}

#[test]
fn link_with_open_and_close_tag_counts_too() {
    let xml = "<feed><entry><link title=\"pdf\" href=\"p\"></link>\
<category term=\"cs.AI\"></category>\
<arxiv:primary_category term=\"cs.LG\"></arxiv:primary_category></entry></feed>";
    let papers = parse(xml).unwrap();
    assert_eq!(papers[0].pdf_url, "p");
    assert_eq!(papers[0].categories, vec!["cs.AI"]);
    assert_eq!(papers[0].primary_category, "cs.LG");
}

#[test]
fn link_of_another_kind_is_ignored() {
    let xml = "<feed><entry><link title=\"html\" href=\"h\"/><link href=\"n\"/>\
<link title=\"pdf\"/></entry></feed>";
    let papers = parse(xml).unwrap();
    assert_eq!(papers[0].pdf_url, "");
    assert_eq!(papers[0].doi, "");
}

#[test]
fn later_link_takes_the_place_of_an_earlier_one() {
    let xml = "<feed><entry><link title=\"pdf\" href=\"pdf-one\"/><link href=\"pdf-two\" title=\"pdf\"/>\
<link title=\"doi\" href=\"doi-one\"/><link title=\"doi\" href=\"doi-two\"/>\
<arxiv:primary_category term=\"a\"/><arxiv:primary_category term=\"b\"/></entry></feed>";
    let papers = parse(xml).unwrap();
    assert_eq!(papers[0].pdf_url, "pdf-two");
    assert_eq!(papers[0].doi, "doi-two");
    assert_eq!(papers[0].primary_category, "b");
}

#[test]
fn attribute_values_are_taken_as_they_stand() {
    let xml = "<feed><entry><link title='pdf' href='http://x/?a=1&amp;b=2'/></entry></feed>";
    assert_eq!(parse(xml).unwrap()[0].pdf_url, "http://x/?a=1&amp;b=2");
}

#[test]
fn category_without_term_adds_nothing() {
    let xml = "<feed><entry><category scheme=\"s\"/><category/>\
<arxiv:primary_category scheme=\"s\"/></entry></feed>";
    let papers = parse(xml).unwrap();
    assert!(papers[0].categories.is_empty());
    assert_eq!(papers[0].primary_category, "");
}

#[test]
fn mismatched_end_tag_is_a_syntax_error() {
    assert_eq!(parse("<feed><entry></id></entry></feed>").unwrap_err(), MalformedFeedError::Syntax);
    assert_eq!(parse("<feed><entry><id>1</id></entry></fee>").unwrap_err(), MalformedFeedError::Syntax);
    assert_eq!(parse("</feed>").unwrap_err(), MalformedFeedError::Syntax);
}

#[test]
fn unclosed_tag_is_a_syntax_error() {
    assert_eq!(parse("<feed><entry><id>1</id></entry></feed").unwrap_err(), MalformedFeedError::Syntax);
    assert_eq!(parse("<feed><!-- never closed").unwrap_err(), MalformedFeedError::Syntax);
}

#[test]
fn unknown_entity_in_a_field_is_an_error() {
    let xml = "<feed><entry><title>a &nbsp; b</title></entry></feed>";
    assert_eq!(parse(xml).unwrap_err(), MalformedFeedError::Entity);
    let xml = "<feed><entry><summary>a & b</summary></entry></feed>";
    assert_eq!(parse(xml).unwrap_err(), MalformedFeedError::Entity);
}

#[test]
fn unknown_entity_elsewhere_is_passed_over() {
    let xml = "<feed><title>&nbsp;</title><entry>&nbsp;<id>1</id><other>&nbsp;</other></entry></feed>";
    let papers = parse(xml).unwrap();
    assert_eq!(papers.len(), 1);
    assert_eq!(papers[0].id, "1");
}

#[test]
fn malformed_attribute_before_term_is_an_error() {
    let xml = "<feed><entry><category scheme term=\"cs.AI\"/></entry></feed>";
    assert_eq!(parse(xml).unwrap_err(), MalformedFeedError::Attribute);
    let xml = "<feed><entry><category term=cs.AI/></entry></feed>";
    assert_eq!(parse(xml).unwrap_err(), MalformedFeedError::Attribute);
}

#[test]
fn malformed_attribute_behind_term_does_no_harm() {
    let xml = "<feed><entry><category term=\"cs.AI\" scheme/></entry></feed>";
    assert_eq!(parse(xml).unwrap()[0].categories, vec!["cs.AI"]);
}

#[test]
fn malformed_attribute_of_a_link_is_passed_over() {
    let xml = "<feed><entry><link rel title=\"pdf\" href=\"p\"/>\
<arxiv:primary_category scheme term=\"cs.AI\"/></entry></feed>";
    let papers = parse(xml).unwrap();
    assert_eq!(papers[0].pdf_url, "p");
    assert_eq!(papers[0].primary_category, "cs.AI");
}

#[test]
fn malformed_category_outside_entries_is_passed_over() {
    let xml = "<feed><category scheme term=\"cs.AI\"/><entry/></feed>";
    assert!(parse(xml).unwrap().is_empty());
}

#[test]
fn no_papers_come_with_an_error() {
    let xml = "<feed><entry><id>1</id></entry><entry><title>&bad;</title></entry></feed>";
    assert!(parse(xml).is_err());
}

#[test]
fn scanner_follows_the_events() {
    let mut scanner = FeedScanner::new();
    assert!(scanner.papers.is_empty());
    assert_eq!(scanner.flags, Flags::new());
    assert_eq!(scanner.step(start("feed", "")), Ok(()));
    assert_eq!(scanner.step(start("title", "")), Ok(()));
    assert!(scanner.flags.title);
    assert_eq!(scanner.step(text("feed title")), Ok(()));
    assert_eq!(scanner.current.title, "");
    assert_eq!(scanner.step(end("title")), Ok(()));
    assert!(!scanner.flags.title);
    assert_eq!(scanner.step(start("entry", "")), Ok(()));
    assert!(scanner.flags.entry);
    assert_eq!(scanner.step(start("id", "")), Ok(()));
    assert_eq!(scanner.step(text("a &amp; b")), Ok(()));
    assert_eq!(scanner.current.id, "a & b");
    assert_eq!(scanner.step(end("id")), Ok(()));
    assert_eq!(scanner.step(empty("link", " title=\"doi\" href=\"d\"")), Ok(()));
    assert_eq!(scanner.current.doi, "d");
    assert_eq!(scanner.step(start("link", " href=\"p\" title=\"pdf\"")), Ok(()));
    assert_eq!(scanner.current.pdf_url, "p");
    assert_eq!(scanner.step(empty("category", " term=\"cs.AI\"")), Ok(()));
    assert_eq!(scanner.step(empty("arxiv:primary_category", " term=\"cs.AI\"")), Ok(()));
    assert_eq!(scanner.step(XmlEvent::Other), Ok(()));
    assert_eq!(scanner.step(XmlEvent::Eof), Ok(()));
    assert_eq!(scanner.current.categories, vec!["cs.AI"]);
    assert_eq!(scanner.current.primary_category, "cs.AI");
    assert_eq!(scanner.step(end("entry")), Ok(()));
    assert!(!scanner.flags.entry);
    assert_eq!(scanner.papers.len(), 1);
    assert_eq!(scanner.papers[0].id, "a & b");
    assert_eq!(scanner.papers[0].doi, "d");
    assert_eq!(scanner.current.id, "");
    assert_eq!(scanner.current.doi, "");
    assert!(scanner.current.categories.is_empty());
}

#[test]
fn scanner_is_left_alone_by_an_error() {
    let mut scanner = FeedScanner::new();
    scanner.step(start("entry", "")).unwrap();
    scanner.step(start("title", "")).unwrap();
    scanner.step(text("kept")).unwrap();
    assert_eq!(scanner.step(text("&bad;")), Err(MalformedFeedError::Entity));
    assert_eq!(scanner.step(XmlEvent::Malformed), Err(MalformedFeedError::Syntax));
    assert_eq!(scanner.step(empty("category", " x term=\"t\"")), Err(MalformedFeedError::Attribute));
    assert_eq!(scanner.current.title, "kept");
    assert!(scanner.current.categories.is_empty());
    assert!(scanner.flags.entry && scanner.flags.title);
    assert!(scanner.papers.is_empty());
}

#[test]
fn start_of_an_entry_drops_an_open_paper() {
    let mut scanner = FeedScanner::new();
    scanner.step(start("entry", "")).unwrap();
    scanner.step(start("id", "")).unwrap();
    scanner.step(text("1")).unwrap();
    scanner.step(end("id")).unwrap();
    scanner.step(start("entry", "")).unwrap();
    assert_eq!(scanner.current.id, "");
    scanner.step(end("entry")).unwrap();
    assert_eq!(scanner.papers.len(), 1);
    assert_eq!(scanner.papers[0].id, "");
}

#[test]
fn first_flag_that_is_up_decides() {
    let mut flags = Flags::new();
    assert_eq!(flags.text_field(), None);
    flags.mark(FieldElement::JournalRef, true);
    assert_eq!(flags.text_field(), Some(TextField::JournalRef));
    flags.mark(FieldElement::Comment, true);
    assert_eq!(flags.text_field(), Some(TextField::Comment));
    flags.mark(FieldElement::Updated, true);
    assert_eq!(flags.text_field(), Some(TextField::Updated));
    flags.mark(FieldElement::Published, true);
    assert_eq!(flags.text_field(), Some(TextField::Published));
    flags.mark(FieldElement::Summary, true);
    assert_eq!(flags.text_field(), Some(TextField::Abstract));
    flags.mark(FieldElement::Name, true);
    assert!(!flags.name);
    flags.mark(FieldElement::Author, true);
    assert_eq!(flags.text_field(), Some(TextField::Abstract));
    flags.mark(FieldElement::Name, true);
    assert_eq!(flags.text_field(), Some(TextField::Author));
    flags.mark(FieldElement::Title, true);
    assert_eq!(flags.text_field(), Some(TextField::Title));
    flags.mark(FieldElement::Id, true);
    assert_eq!(flags.text_field(), Some(TextField::Id));
    flags.mark(FieldElement::Id, false);
    flags.mark(FieldElement::Title, false);
    flags.mark(FieldElement::Author, false);
    flags.mark(FieldElement::Name, false);
    assert!(flags.name);
    assert_eq!(flags.text_field(), Some(TextField::Abstract));
}

#[test]
fn field_elements_by_name() {
    assert_eq!(FieldElement::of("id"), Some(FieldElement::Id));
    assert_eq!(FieldElement::of("title"), Some(FieldElement::Title));
    assert_eq!(FieldElement::of("author"), Some(FieldElement::Author));
    assert_eq!(FieldElement::of("name"), Some(FieldElement::Name));
    assert_eq!(FieldElement::of("summary"), Some(FieldElement::Summary));
    assert_eq!(FieldElement::of("published"), Some(FieldElement::Published));
    assert_eq!(FieldElement::of("updated"), Some(FieldElement::Updated));
    assert_eq!(FieldElement::of("arxiv:comment"), Some(FieldElement::Comment));
    assert_eq!(FieldElement::of("arxiv:journal_ref"), Some(FieldElement::JournalRef));
    assert_eq!(FieldElement::of("comment"), None);
    assert_eq!(FieldElement::of("entry"), None);
    assert_eq!(FieldElement::of("link"), None);
    assert_eq!(FieldElement::of(""), None);
}

#[test]
fn paper_takes_texts_by_field() {
    let mut paper = Paper::default();
    paper.set_text(TextField::Id, "i".to_string());
    paper.set_text(TextField::Title, "t".to_string());
    paper.set_text(TextField::Author, "a1".to_string());
    paper.set_text(TextField::Author, "a2".to_string());
    paper.set_text(TextField::Abstract, " s\ns ".to_string());
    paper.set_text(TextField::Published, "p".to_string());
    paper.set_text(TextField::Updated, "u".to_string());
    paper.set_text(TextField::Comment, "c".to_string());
    paper.set_text(TextField::JournalRef, "j".to_string());
    assert_eq!(paper.id, "i");
    assert_eq!(paper.title, "t");
    assert_eq!(paper.authors, vec!["a1", "a2"]);
    assert_eq!(paper.abstract_text, "ss");
    assert_eq!(paper.published, "p");
    assert_eq!(paper.updated, "u");
    assert_eq!(paper.comment, vec!["c"]);
    assert_eq!(paper.journal_ref, "j");
    assert_eq!(paper.doi, "");
    assert_eq!(paper.pdf_url, "");
    assert_eq!(paper.primary_category, "");
    assert!(paper.categories.is_empty());
}

#[test]
fn empty_paper_holds_nothing() {
    let paper = Paper::default();
    assert_eq!(paper.id, "");
    assert_eq!(paper.title, "");
    assert!(paper.authors.is_empty());
    assert_eq!(paper.abstract_text, "");
    assert_eq!(paper.published, "");
    assert_eq!(paper.updated, "");
    assert_eq!(paper.doi, "");
    assert!(paper.comment.is_empty());
    assert_eq!(paper.journal_ref, "");
    assert_eq!(paper.pdf_url, "");
    assert_eq!(paper.primary_category, "");
    assert!(paper.categories.is_empty());
}

#[test]
fn pdf_goes_before_doi_where_a_link_is_both() {
    let mut paper = Paper::default();
    let list = vec![attribute("title", "doi"), attribute("title", "pdf"), attribute("href", "h")];
    paper.set_link(&list);
    assert_eq!(paper.pdf_url, "h");
    assert_eq!(paper.doi, "");
    let list = vec![attribute("href", "d"), None, attribute("title", "doi")];
    paper.set_link(&list);
    assert_eq!(paper.pdf_url, "h");
    assert_eq!(paper.doi, "d");
    let list = vec![attribute("href", "one"), attribute("title", "pdf"), attribute("href", "two")];
    paper.set_link(&list);
    assert_eq!(paper.pdf_url, "two");
    paper.set_link(&vec![attribute("title", "pdf")]);
    assert_eq!(paper.pdf_url, "two");
    paper.set_link(&vec![attribute("href", "x"), attribute("title", "PDF")]);
    assert_eq!(paper.pdf_url, "two");
    assert_eq!(paper.doi, "d");
}

#[test]
fn categories_from_attributes() {
    let mut paper = Paper::default();
    paper.set_primary_category(&vec![attribute("term", "a"), None, attribute("term", "b")]);
    assert_eq!(paper.primary_category, "b");
    paper.set_primary_category(&vec![attribute("scheme", "s")]);
    assert_eq!(paper.primary_category, "b");
    assert_eq!(paper.add_category(&vec![attribute("scheme", "s"), attribute("term", "a")]), Ok(()));
    assert_eq!(paper.add_category(&vec![attribute("term", "b"), attribute("term", "c"), None]), Ok(()));
    assert_eq!(paper.add_category(&vec![attribute("scheme", "s")]), Ok(()));
    assert_eq!(paper.add_category(&Vec::new()), Ok(()));
    assert_eq!(
        paper.add_category(&vec![None, attribute("term", "d")]),
        Err(MalformedFeedError::Attribute)
    );
    assert_eq!(paper.categories, vec!["a", "b"]);
}

#[test]
fn attribute_lookups() {
    let list = vec![attribute("a", "1"), None, attribute("b", "2"), attribute("a", "3")];
    assert!(has_pair(&list, "a", "1"));
    assert!(has_pair(&list, "a", "3"));
    assert!(has_pair(&list, "b", "2"));
    assert!(!has_pair(&list, "a", "2"));
    assert!(!has_pair(&list, "c", "1"));
    assert!(!has_pair(&Vec::new(), "a", "1"));
    assert_eq!(find_last(&list, "a"), Some("3".to_string()));
    assert_eq!(find_last(&list, "b"), Some("2".to_string()));
    assert_eq!(find_last(&list, "c"), None);
    assert_eq!(find_first(&list, "a"), Ok(Some("1".to_string())));
    assert_eq!(find_first(&list, "b"), Err(()));
    assert_eq!(find_first(&list, "c"), Err(()));
    assert_eq!(find_first(&list[..1].iter().map(|a| attribute(&a.as_ref().unwrap().key, "v")).collect(), "c"), Ok(None));
}

#[test]
fn moments_of_a_paper() {
    let mut paper = Paper::default();
    paper.published = "2017-06-12T17:57:34Z".to_string();
    paper.updated = "2023-08-02T00:41:18Z".to_string();
    assert_eq!(paper.published2utc(), Moment { seconds: 1497290254, nanoseconds: 0 });
    assert_eq!(paper.updated2utc(), Moment { seconds: 1690936878, nanoseconds: 0 });
    assert_eq!(paper.published_utc(), Some(Moment { seconds: 1497290254, nanoseconds: 0 }));
    assert_eq!(paper.updated_utc(), Some(Moment { seconds: 1690936878, nanoseconds: 0 }));
}

#[test]
fn moment_is_told_in_utc() {
    let mut paper = Paper::default();
    paper.published = "1996-12-19T16:39:57-08:00".to_string();
    paper.updated = "1996-12-20T00:39:57.250Z".to_string();
    assert_eq!(paper.published2utc(), Moment { seconds: 851042397, nanoseconds: 0 });
    assert_eq!(paper.updated2utc(), Moment { seconds: 851042397, nanoseconds: 250_000_000 });
    assert!(paper.published2utc() < paper.updated2utc());
}

#[test]
fn moment_lies_between_the_ends_of_its_day() {
    let mut from = Paper::default();
    from.published = "2024-12-01T00:00:00Z".to_string();
    let mut to = Paper::default();
    to.published = "2024-12-01T23:59:00Z".to_string();
    let mut paper = Paper::default();
    paper.published = "2024-12-01T18:59:59Z".to_string();
    let published = paper.published2utc();
    assert_eq!(published.seconds, 1733079599);
    assert!(from.published2utc() <= published && published <= to.published2utc());
}

#[test]
fn text_that_is_no_moment_gives_none() {
    let mut paper = Paper::default();
    assert_eq!(paper.published_utc(), None);
    assert_eq!(paper.updated_utc(), None);
    paper.published = "2024-12-01".to_string();
    paper.updated = "yesterday".to_string();
    assert_eq!(paper.published_utc(), None);
    assert_eq!(paper.updated_utc(), None);
}

#[test]
fn there_is_one_paper_for_each_entry_that_ends() {
    let entry = "<entry><id>x</id></entry>";
    for count in 0..5 {
        let xml = format!("<feed><title>t</title>{}</feed>", entry.repeat(count));
        let papers = parse(&xml).unwrap();
        assert_eq!(papers.len(), count);
        assert_eq!(papers.len(), xml.matches("</entry>").count());
    }
}

#[test]
fn scanning_in_two_runs_is_scanning_in_one() {
    let events = || {
        vec![
            start("entry", ""),
            start("title", ""),
            text("one"),
            end("title"),
            empty("category", " term=\"cs.AI\""),
            end("entry"),
            start("entry", ""),
            start("id", ""),
            text("two"),
            end("id"),
            end("entry"),
        ]
    };
    let mut whole = FeedScanner::new();
    for event in events() {
        whole.step(event).unwrap();
    }
    for cut in 0..=events().len() {
        let mut first = FeedScanner::new();
        let mut all = events();
        let rest = all.split_off(cut);
        for event in all {
            first.step(event).unwrap();
        }
        let mut second =
            FeedScanner { flags: first.flags, current: first.current, papers: first.papers };
        for event in rest {
            second.step(event).unwrap();
        }
        assert_eq!(second.papers.len(), whole.papers.len());
        assert_eq!(second.papers[0].title, "one");
        assert_eq!(second.papers[0].categories, vec!["cs.AI"]);
        assert_eq!(second.papers[1].id, "two");
        assert_eq!(second.papers[1].title, "");
        assert_eq!(second.flags, whole.flags);
    }
}
