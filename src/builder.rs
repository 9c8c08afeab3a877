//! The extractor's working state and the handling of one tokenizer event.
use vstd::prelude::*;
use crate::model::{
    BuilderView, Event, EventView, Page, Revision, StepView, Transition, close_element,
    initial_state, pop_tag, reset, step,
};

verus! {

/// What feeding one event hands back, when it is not fatal.
#[derive(Debug, Clone)]
pub enum Step {
    Continue,
    Emit(Page),
    Finished,
}

impl View for Step {
    type V = StepView;

    open spec fn view(&self) -> StepView {
        match self {
            Step::Continue => StepView::Continue,
            Step::Emit(p) => StepView::Emit(p@),
            Step::Finished => StepView::Finished,
        }
    }
}

/// A fatal condition met while building pages.
#[derive(Debug, Clone, PartialEq, Eq)]
pub enum BuildError {
    /// A `page` element closed with no title captured for it.
    MissingTitle,
    /// A `revision` element closed with no text captured for it.
    MissingText,
}

/// The state left by a fatal close of an element: only its name is off the
/// tag stack; nothing captured changes.
pub open spec fn failed_state(s: BuilderView) -> BuilderView {
    BuilderView { tags: pop_tag(s.tags), ..s }
}

/// Whether feeding one event to `s` gave `r`, leaving the state `after`.
pub open spec fn feeds_to(s: BuilderView, e: EventView, r: Result<StepView, BuildError>, after: BuilderView) -> bool {
    match step(s, e) {
        Transition::Next(s2, o) => r == Ok::<StepView, BuildError>(o) && after == s2,
        Transition::MissingTitle => r == Err::<StepView, BuildError>(BuildError::MissingTitle)
            && after == failed_state(s),
        Transition::MissingText => r == Err::<StepView, BuildError>(BuildError::MissingText)
            && after == failed_state(s),
    }
}

/// The per-page scratch state of the extractor, fed one event at a time.
pub struct PageBuilder {
    tag_stack: Vec<String>,
    content: String,
    title: Option<String>,
    text: Option<String>,
    revisions: Vec<Revision>,
}

pub open spec fn view_result(r: Result<Step, BuildError>) -> Result<StepView, BuildError> {
    match r {
        Ok(o) => Ok(o@),
        Err(e) => Err(e),
    }
}

pub open spec fn view_text(t: Option<String>) -> Option<Seq<char>> {
    match t {
        Some(s) => Some(s@),
        None => None,
    }
}

fn tag_is(name: &String, lit: &str) -> (r: bool)
    ensures
        r == (name@ == lit@),
{
    let l = String::from_str(lit);
    *name == l
}

fn copy_text(t: &Option<String>) -> (r: Option<String>)
    ensures
        view_text(r) == view_text(*t),
{
    match t {
        Some(s) => Some(s.clone()),
        None => None,
    }
}

impl View for PageBuilder {
    type V = BuilderView;

    closed spec fn view(&self) -> BuilderView {
        BuilderView {
            tags: self.tag_stack@.map_values(|n: String| n@),
            content: self.content@,
            title: view_text(self.title),
            text: view_text(self.text),
            revisions: self.revisions@.map_values(|r: Revision| r@),
        }
    }
}

impl PageBuilder {
    /// The state before any event: nothing open, nothing captured.
    pub fn new() -> (r: PageBuilder)
        ensures
            r@ == initial_state(),
    {
        let r = PageBuilder {
            tag_stack: Vec::new(),
            content: String::new(),
            title: None,
            text: None,
            revisions: Vec::new(),
        };
        assert(r@.tags =~= Seq::<Seq<char>>::empty());
        assert(r@.revisions =~= Seq::<Seq<char>>::empty());
        r
    }

    /// Clears the title, the revision text and the revisions of the page
    /// under way.
    fn reset_page(&mut self)
        ensures
            final(self)@ == reset(old(self)@),
    {
        self.revisions = Vec::new();
        self.title = None;
        self.text = None;
        assert(final(self)@.revisions =~= Seq::<Seq<char>>::empty());
    }

    /// Handles the close of an element named `lname`, whose name is already
    /// off the tag stack.
    fn proc_end_elem(&mut self, lname: &String) -> (r: Result<Step, BuildError>)
        ensures
            match close_element(old(self)@, lname@) {
                Transition::Next(s2, o) => r is Ok && r->Ok_0@ == o && final(self)@ == s2,
                Transition::MissingTitle => r == Err::<Step, BuildError>(BuildError::MissingTitle)
                    && final(self)@ == old(self)@,
                Transition::MissingText => r == Err::<Step, BuildError>(BuildError::MissingText)
                    && final(self)@ == old(self)@,
            },
    {
        if tag_is(lname, "page") {
            match &self.title {
                Some(t) => {
                    let title = t.clone();
                    let mut revisions: Vec<Revision> = Vec::new();
                    core::mem::swap(&mut revisions, &mut self.revisions);
                    let page = Page { title, revisions };
                    self.reset_page();
                    Ok(Step::Emit(page))
                },
                None => Err(BuildError::MissingTitle),
            }
        } else if tag_is(lname, "title") {
            self.title = Some(self.content.clone());
            Ok(Step::Continue)
        } else if tag_is(lname, "text") {
            self.text = Some(self.content.clone());
            Ok(Step::Continue)
        } else if tag_is(lname, "revision") {
            match copy_text(&self.text) {
                Some(x) => {
                    let revision = Revision { text: x };
                    self.revisions.push(revision);
                    self.text = None;
                    proof {
                        assert(final(self)@.revisions =~= old(self)@.revisions.push(revision@));
                    }
                    Ok(Step::Continue)
                },
                None => Err(BuildError::MissingText),
            }
        } else {
            Ok(Step::Continue)
        }
    }

    /// Feeds one tokenizer event to the working state.
    pub fn feed(&mut self, e: Event) -> (r: Result<Step, BuildError>)
        ensures
            feeds_to(old(self)@, e@, view_result(r), final(self)@),
    {
        match e {
            Event::Start(name) => {
                self.tag_stack.push(name);
                self.content = String::new();
                proof {
                    assert(final(self)@.tags =~= old(self)@.tags.push(name@));
                }
                Ok(Step::Continue)
            },
            Event::End(name) => {
                self.tag_stack.pop();
                proof {
                    assert(self@.tags =~= pop_tag(old(self)@.tags));
                }
                self.proc_end_elem(&name)
            },
            Event::Characters(chars) => {
                self.content.append(chars.as_str());
                Ok(Step::Continue)
            },
            Event::EndDocument => Ok(Step::Finished),
            Event::Other => Ok(Step::Continue),
        }
    }
}

} // verus!
