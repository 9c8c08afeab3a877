use mediawiki_dump_parser::{
    BuildError, Event, ExtractError, Page, PageBuilder, Parser, Step,
};
use std::io::BufReader;

const BASIC_XML: &str = "<mediawiki>
<page>
<title>TITLE</title>
<revision>
<text>TEXT</text>
</revision>
</page>
</mediawiki>";

fn parser_over(doc: &'static str) -> Parser<'static> {
    Parser::new(BufReader::new(doc.as_bytes()))
}

#[test]
fn basic_title_and_revision_with_text() {
    let reader = BufReader::new(BASIC_XML.as_bytes());
    let mut parser = Parser::new(reader);
    let page = parser.next().unwrap();
    assert!(page.is_some());
    let page = page.unwrap();
    assert_eq!(page.title, "TITLE");
    assert_eq!(page.revisions.len(), 1);
    assert_eq!(page.revisions[0].text, "TEXT");
}

#[test]
fn document_without_pages_ends_at_once() {
    let mut parser = parser_over("<mediawiki></mediawiki>");
    assert!(parser.next().unwrap().is_none());
}

#[test]
fn revisions_keep_document_order() {
    let mut parser = parser_over(
        "<mediawiki><page><title>T</title>\
         <revision><text>one</text></revision>\
         <revision><text>two</text></revision>\
         <revision><text>three</text></revision>\
         </page></mediawiki>",
    );
    let page = parser.next().unwrap().unwrap();
    let texts: Vec<&str> = page.revisions.iter().map(|r| r.text.as_str()).collect();
    assert_eq!(texts, vec!["one", "two", "three"]);
}

#[test]
fn page_without_revisions_has_none() {
    let mut parser = parser_over("<mediawiki><page><title>Empty</title></page></mediawiki>");
    let page = parser.next().unwrap().unwrap();
    assert_eq!(page.title, "Empty");
    assert!(page.revisions.is_empty());
}

#[test]
fn split_character_data_is_joined() {
    let mut b = PageBuilder::new();
    assert!(matches!(b.feed(Event::Start("page".to_string())), Ok(Step::Continue)));
    assert!(matches!(b.feed(Event::Start("title".to_string())), Ok(Step::Continue)));
    assert!(matches!(b.feed(Event::Characters("TI".to_string())), Ok(Step::Continue)));
    assert!(matches!(b.feed(Event::Characters("TLE".to_string())), Ok(Step::Continue)));
    assert!(matches!(b.feed(Event::End("title".to_string())), Ok(Step::Continue)));
    assert!(matches!(b.feed(Event::Start("revision".to_string())), Ok(Step::Continue)));
    assert!(matches!(b.feed(Event::Start("text".to_string())), Ok(Step::Continue)));
    assert!(matches!(b.feed(Event::Characters("TE".to_string())), Ok(Step::Continue)));
    assert!(matches!(b.feed(Event::Characters("XT".to_string())), Ok(Step::Continue)));
    assert!(matches!(b.feed(Event::End("text".to_string())), Ok(Step::Continue)));
    assert!(matches!(b.feed(Event::End("revision".to_string())), Ok(Step::Continue)));
    match b.feed(Event::End("page".to_string())) {
        Ok(Step::Emit(page)) => {
            assert_eq!(page.title, "TITLE");
            assert_eq!(page.revisions.len(), 1);
            assert_eq!(page.revisions[0].text, "TEXT");
        }
        other => panic!("expected a page, got {:?}", other),
    }
}

#[test]
fn text_with_an_entity_is_one_string() {
    let mut parser = parser_over(
        "<mediawiki><page><title>A &amp; B</title>\
         <revision><text>x &lt; y</text></revision></page></mediawiki>",
    );
    let page = parser.next().unwrap().unwrap();
    assert_eq!(page.title, "A & B");
    assert_eq!(page.revisions[0].text, "x < y");
}

#[test]
fn page_closed_without_title_is_fatal() {
    let mut parser = parser_over(
        "<mediawiki><page><revision><text>x</text></revision></page></mediawiki>",
    );
    assert!(matches!(parser.next(), Err(ExtractError::MissingTitle)));
}

#[test]
fn revision_closed_without_text_is_fatal() {
    let mut parser = parser_over(
        "<mediawiki><page><title>T</title><revision></revision></page></mediawiki>",
    );
    assert!(matches!(parser.next(), Err(ExtractError::MissingText)));
}

#[test]
fn builder_reports_missing_title_and_text() {
    let mut b = PageBuilder::new();
    assert!(matches!(b.feed(Event::End("page".to_string())), Err(BuildError::MissingTitle)));
    let mut b = PageBuilder::new();
    assert!(matches!(b.feed(Event::End("revision".to_string())), Err(BuildError::MissingText)));
}

#[test]
fn end_of_sequence_repeats() {
    let mut parser = parser_over(BASIC_XML);
    assert!(parser.next().unwrap().is_some());
    assert!(parser.next().unwrap().is_none());
    assert!(parser.next().unwrap().is_none());
    assert!(parser.next().unwrap().is_none());
}

#[test]
fn sibling_pages_come_in_order_with_their_own_revisions() {
    let mut parser = parser_over(
        "<mediawiki>\
         <page><title>First</title><revision><text>a</text></revision>\
         <revision><text>b</text></revision></page>\
         <page><title>Second</title><revision><text>c</text></revision></page>\
         </mediawiki>",
    );
    let first = parser.next().unwrap().unwrap();
    assert_eq!(first.title, "First");
    assert_eq!(first.revisions.len(), 2);
    assert_eq!(first.revisions[0].text, "a");
    assert_eq!(first.revisions[1].text, "b");
    let second = parser.next().unwrap().unwrap();
    assert_eq!(second.title, "Second");
    assert_eq!(second.revisions.len(), 1);
    assert_eq!(second.revisions[0].text, "c");
    assert!(parser.next().unwrap().is_none());
}

#[test]
fn namespaced_and_unknown_elements() {
    let mut parser = parser_over(
        "<mw:mediawiki xmlns:mw=\"http://www.mediawiki.org/xml/export-0.10/\">\
         <mw:siteinfo><mw:sitename>W</mw:sitename></mw:siteinfo>\
         <mw:page><mw:title>T</mw:title><mw:id>7</mw:id>\
         <mw:revision><mw:id>8</mw:id><mw:text>body</mw:text></mw:revision>\
         </mw:page></mw:mediawiki>",
    );
    let page = parser.next().unwrap().unwrap();
    assert_eq!(page.title, "T");
    assert_eq!(page.revisions[0].text, "body");
}

#[test]
fn malformed_xml_is_fatal() {
    let mut parser = parser_over("<mediawiki><page><title>T</page></mediawiki>");
    assert!(matches!(parser.next(), Err(ExtractError::Xml(_))));
}

#[test]
fn empty_input_is_fatal() {
    let mut parser = parser_over("");
    assert!(matches!(parser.next(), Err(ExtractError::Xml(_))));
}

#[test]
fn new_page_is_empty() {
    let page = Page::new();
    assert_eq!(page.title, "");
    assert!(page.revisions.is_empty());
}

#[test]
fn builder_finishes_at_document_end() {
    let mut b = PageBuilder::new();
    assert!(matches!(b.feed(Event::EndDocument), Ok(Step::Finished)));
    assert!(matches!(b.feed(Event::Other), Ok(Step::Continue)));
}

#[test]
fn reads_from_a_borrowed_source() {
    let doc = String::from("<mediawiki><page><title>Local</title></page></mediawiki>");
    let mut parser = Parser::new(doc.as_bytes());
    let page = parser.next().unwrap().unwrap();
    assert_eq!(page.title, "Local");
    assert!(parser.next().unwrap().is_none());
}
