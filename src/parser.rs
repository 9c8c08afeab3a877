//! The pull interface: pages are read one at a time from a byte source,
//! through the events of xml-rs's tokenizer.
use vstd::prelude::*;
use xml::reader::{EventReader, XmlEvent};
use crate::builder::{BuildError, PageBuilder, Step};
use crate::model::{
    BuilderView, Event, EventView, Page, StepView, Transition, initial_state, run, step,
};

verus! {

/// xml-rs's tokenizer error, carried through to the caller as it is.
#[verifier::external_type_specification]
#[verifier::external_body]
pub struct ExXmlError(xml::reader::Error);

/// The tokenizer and the byte source it reads. Verus cannot take a type
/// bounded by `std::io::Read`, so the source is boxed and kept out of view.
#[verifier::external_body]
pub struct Tokenizer<'a> {
    reader: EventReader<Box<dyn std::io::Read + 'a>>,
}

/// Relies on xml::reader::EventReader::new: a tokenizer over `source` with the
/// default configuration, before its first event.
#[verifier::external_body]
fn open_tokenizer<'a, R: std::io::Read + 'a>(source: R) -> Tokenizer<'a> {
    let source: Box<dyn std::io::Read + 'a> = Box::new(source);
    Tokenizer { reader: EventReader::new(source) }
}

/// Relies on xml::reader::EventReader::next: pulls the next event of the
/// document, or the tokenizer's error. Only the variants that the extractor
/// reads are kept apart; the local name of an element is moved out of its
/// full name.
#[verifier::external_body]
fn next_event<'a>(tokenizer: &mut Tokenizer<'a>) -> (r: Result<Event, xml::reader::Error>) {
    match tokenizer.reader.next() {
        Ok(XmlEvent::StartElement { name, .. }) => Ok(Event::Start(name.local_name)),
        Ok(XmlEvent::EndElement { name }) => Ok(Event::End(name.local_name)),
        Ok(XmlEvent::Characters(chars)) => Ok(Event::Characters(chars)),
        Ok(XmlEvent::EndDocument) => Ok(Event::EndDocument),
        Ok(_) => Ok(Event::Other),
        Err(e) => Err(e),
    }
}

/// Most events pulled in one call of `Parser::next` before it gives up.
pub const MAX_EVENTS_PER_PULL: u64 = 0xffff_ffff_ffff_ffff;

/// A fatal failure of a pull.
#[derive(Debug)]
pub enum ExtractError {
    /// The tokenizer could not parse the next part of the document.
    Xml(xml::reader::Error),
    /// A `page` element closed with no title captured for it.
    MissingTitle,
    /// A `revision` element closed with no text captured for it.
    MissingText,
    /// `MAX_EVENTS_PER_PULL` events went by without a page or the end of
    /// the document.
    EventLimit,
}

/// Pulls pages, one at a time, out of a MediaWiki XML export read from a
/// byte source.
pub struct Parser<'a> {
    xml_parser: Tokenizer<'a>,
    builder: PageBuilder,
    finished: bool,
    pulled: Ghost<Seq<EventView>>,
}

impl<'a> Parser<'a> {
    /// The working state of the extractor.
    pub closed spec fn state(&self) -> BuilderView {
        self.builder@
    }

    /// Every event pulled from the tokenizer so far, in order.
    pub closed spec fn events(&self) -> Seq<EventView> {
        self.pulled@
    }

    /// Whether a pull has met the end of the document.
    pub closed spec fn is_finished(&self) -> bool {
        self.finished
    }

    /// An extractor over the byte source `r`, before any event.
    pub fn new<R: std::io::Read + 'a>(r: R) -> (p: Parser<'a>)
        ensures
            p.state() == initial_state(),
            p.events() == Seq::<EventView>::empty(),
            !p.is_finished(),
    {
        Parser {
            xml_parser: open_tokenizer(r),
            builder: PageBuilder::new(),
            finished: false,
            pulled: Ghost(Seq::empty()),
        }
    }

    /// Pulls events until a page is complete, the document ends, or a fatal
    /// condition is met. Once the end has been met, every later pull meets it
    /// again and changes nothing.
    pub fn next(&mut self) -> (r: Result<Option<Page>, ExtractError>)
        ensures
            old(self).is_finished() ==> (r matches Ok(None) && *final(self) == *old(self)),
            !old(self).is_finished() ==> {
                let n = old(self).events().len();
                let fresh = final(self).events().subrange(n as int, final(self).events().len() as int);
                &&& final(self).events().subrange(0, n as int) == old(self).events()
                &&& match r {
                    Ok(Some(p)) => !final(self).is_finished() && run(old(self).state(), fresh)
                        == Transition::Next(final(self).state(), StepView::Emit(p@)),
                    Ok(None) => final(self).is_finished() && run(old(self).state(), fresh)
                        == Transition::Next(final(self).state(), StepView::Finished),
                    Err(ExtractError::MissingTitle) => run(old(self).state(), fresh)
                        == Transition::MissingTitle,
                    Err(ExtractError::MissingText) => run(old(self).state(), fresh)
                        == Transition::MissingText,
                    Err(ExtractError::Xml(_)) => fresh.len() < MAX_EVENTS_PER_PULL && run(
                        old(self).state(),
                        fresh,
                    ) == Transition::Next(final(self).state(), StepView::Continue),
                    Err(ExtractError::EventLimit) => fresh.len() == MAX_EVENTS_PER_PULL && run(
                        old(self).state(),
                        fresh,
                    ) == Transition::Next(final(self).state(), StepView::Continue),
                }
            },
    {
        if self.finished {
            return Ok(None);
        }
        let ghost start = self.builder@;
        let ghost n = self.pulled@.len();
        // The source may be endless; the count bounds the pull so that the
        // loop terminates.
        let mut count: u64 = 0;
        assert(self.pulled@.subrange(0, n as int) =~= self.pulled@);
        assert(self.pulled@.subrange(n as int, n as int) =~= Seq::<EventView>::empty());
        while count < MAX_EVENTS_PER_PULL
            invariant
                !self.finished,
                !old(self).finished,
                start == old(self).builder@,
                n == old(self).pulled@.len(),
                self.pulled@.len() == n + count,
                self.pulled@.subrange(0, n as int) == old(self).pulled@,
                run(start, self.pulled@.subrange(n as int, self.pulled@.len() as int))
                    == Transition::Next(self.builder@, StepView::Continue),
            decreases MAX_EVENTS_PER_PULL - count,
        {
            count = count + 1;
            let e = match next_event(&mut self.xml_parser) {
                Ok(e) => e,
                Err(err) => return Err(ExtractError::Xml(err)),
            };
            let ghost before = self.pulled@;
            proof {
                self.pulled@ = self.pulled@.push(e@);
                let fresh = self.pulled@.subrange(n as int, self.pulled@.len() as int);
                assert(fresh.drop_last() =~= before.subrange(n as int, before.len() as int));
                assert(self.pulled@.subrange(0, n as int) =~= before.subrange(0, n as int));
            }
            let ghost b = self.builder@;
            let ghost ev = e@;
            let r = self.builder.feed(e);
            proof {
                let fresh = self.pulled@.subrange(n as int, self.pulled@.len() as int);
                assert(fresh.last() == ev);
                assert(run(start, fresh) == step(b, ev));
            }
            match r {
                Ok(Step::Continue) => {},
                Ok(Step::Emit(page)) => return Ok(Some(page)),
                Ok(Step::Finished) => {
                    self.finished = true;
                    return Ok(None);
                },
                Err(BuildError::MissingTitle) => return Err(ExtractError::MissingTitle),
                Err(BuildError::MissingText) => return Err(ExtractError::MissingText),
            }
        }
        Err(ExtractError::EventLimit)
    }
}

} // verus!
