//! The data the extractor produces, the events it consumes, and the
//! mathematical model of one extraction step.
use vstd::prelude::*;

verus! {

/// One historical revision of a page: its raw, unprocessed body text.
#[derive(Debug, Clone)]
pub struct Revision {
    pub text: String,
}

/// One wiki page: its title and its revisions in document order.
#[derive(Debug, Clone)]
pub struct Page {
    pub title: String,
    pub revisions: Vec<Revision>,
}

/// What a page is, mathematically: a title and the text of each revision.
pub struct PageView {
    pub title: Seq<char>,
    pub revisions: Seq<Seq<char>>,
}

impl View for Revision {
    type V = Seq<char>;

    open spec fn view(&self) -> Seq<char> {
        self.text@
    }
}

impl View for Page {
    type V = PageView;

    open spec fn view(&self) -> PageView {
        PageView { title: self.title@, revisions: self.revisions@.map_values(|r: Revision| r@) }
    }
}

impl Page {
    /// A page with an empty title and no revisions.
    pub fn new() -> (r: Page)
        ensures
            r@.title == Seq::<char>::empty(),
            r@.revisions == Seq::<Seq<char>>::empty(),
    {
        let r = Page { title: String::new(), revisions: Vec::new() };
        assert(r@.revisions =~= Seq::<Seq<char>>::empty());
        r
    }
}

/// One event of the underlying XML tokenizer, reduced to what the extractor
/// reads: element names are local names, with any namespace prefix removed.
#[derive(Debug, Clone)]
pub enum Event {
    Start(String),
    End(String),
    Characters(String),
    EndDocument,
    Other,
}

pub enum EventView {
    Start(Seq<char>),
    End(Seq<char>),
    Characters(Seq<char>),
    EndDocument,
    Other,
}

impl View for Event {
    type V = EventView;

    open spec fn view(&self) -> EventView {
        match self {
            Event::Start(n) => EventView::Start(n@),
            Event::End(n) => EventView::End(n@),
            Event::Characters(c) => EventView::Characters(c@),
            Event::EndDocument => EventView::EndDocument,
            Event::Other => EventView::Other,
        }
    }
}

/// The extractor's working state.
pub struct BuilderView {
    /// Names of the currently open elements, innermost last.
    pub tags: Seq<Seq<char>>,
    /// Text of the most recently opened element since it was opened.
    pub content: Seq<char>,
    /// Title of the page being built, once its `title` element has closed.
    pub title: Option<Seq<char>>,
    /// Text of the revision being built, once its `text` element has closed.
    pub text: Option<Seq<char>>,
    /// Texts of the revisions completed so far for the page being built.
    pub revisions: Seq<Seq<char>>,
}

/// What one event leads to, when it is not fatal.
pub enum StepView {
    /// Nothing to hand out yet.
    Continue,
    /// A page is complete.
    Emit(PageView),
    /// The document has ended.
    Finished,
}

/// The result of feeding one event to a working state.
pub enum Transition {
    Next(BuilderView, StepView),
    /// A `page` element closed with no title captured.
    MissingTitle,
    /// A `revision` element closed with no text captured.
    MissingText,
}

pub open spec fn initial_state() -> BuilderView {
    BuilderView {
        tags: Seq::empty(),
        content: Seq::empty(),
        title: None,
        text: None,
        revisions: Seq::empty(),
    }
}

/// No page is under way: no title, no revision text, no revisions.
pub open spec fn is_fresh(s: BuilderView) -> bool {
    &&& s.title is None
    &&& s.text is None
    &&& s.revisions == Seq::<Seq<char>>::empty()
}

/// The state with every per-page field cleared.
pub open spec fn reset(s: BuilderView) -> BuilderView {
    BuilderView { title: None, text: None, revisions: Seq::empty(), ..s }
}

pub open spec fn pop_tag(tags: Seq<Seq<char>>) -> Seq<Seq<char>> {
    if tags.len() > 0 {
        tags.drop_last()
    } else {
        tags
    }
}

/// The effect of closing an element named `n`, once it is off the tag stack.
pub open spec fn close_element(s: BuilderView, n: Seq<char>) -> Transition {
    if n == "page"@ {
        match s.title {
            Some(t) => Transition::Next(
                reset(s),
                StepView::Emit(PageView { title: t, revisions: s.revisions }),
            ),
            None => Transition::MissingTitle,
        }
    } else if n == "title"@ {
        Transition::Next(BuilderView { title: Some(s.content), ..s }, StepView::Continue)
    } else if n == "text"@ {
        Transition::Next(BuilderView { text: Some(s.content), ..s }, StepView::Continue)
    } else if n == "revision"@ {
        match s.text {
            Some(x) => Transition::Next(
                BuilderView { text: None, revisions: s.revisions.push(x), ..s },
                StepView::Continue,
            ),
            None => Transition::MissingText,
        }
    } else {
        Transition::Next(s, StepView::Continue)
    }
}

/// Feeding one event to the working state `s`.
pub open spec fn step(s: BuilderView, e: EventView) -> Transition {
    match e {
        EventView::Start(n) => Transition::Next(
            BuilderView { tags: s.tags.push(n), content: Seq::empty(), ..s },
            StepView::Continue,
        ),
        EventView::End(n) => close_element(BuilderView { tags: pop_tag(s.tags), ..s }, n),
        EventView::Characters(c) => Transition::Next(
            BuilderView { content: s.content + c, ..s },
            StepView::Continue,
        ),
        EventView::EndDocument => Transition::Next(s, StepView::Finished),
        EventView::Other => Transition::Next(s, StepView::Continue),
    }
}

/// Feeding the events `evs` in order to `s`, stopping at the first event
/// that does not lead to `Continue`; later events are not looked at.
pub open spec fn run(s: BuilderView, evs: Seq<EventView>) -> Transition
    decreases evs.len(),
{
    if evs.len() == 0 {
        Transition::Next(s, StepView::Continue)
    } else {
        match run(s, evs.drop_last()) {
            Transition::Next(s1, StepView::Continue) => step(s1, evs.last()),
            other => other,
        }
    }
}

} // verus!
