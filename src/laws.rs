//! Properties of extraction over whole runs of events.
use vstd::prelude::*;
use crate::model::{
    BuilderView, EventView, PageView, StepView, Transition, is_fresh, run, step,
};

verus! {

/// The events of one `revision` element holding a `text` element with the
/// characters `x`.
pub open spec fn revision_events(x: Seq<char>) -> Seq<EventView> {
    seq![
        EventView::Start("revision"@),
        EventView::Start("text"@),
        EventView::Characters(x),
        EventView::End("text"@),
        EventView::End("revision"@),
    ]
}

/// The events of consecutive `revision` elements with the texts `ts`.
pub open spec fn revisions_events(ts: Seq<Seq<char>>) -> Seq<EventView>
    decreases ts.len(),
{
    if ts.len() == 0 {
        Seq::empty()
    } else {
        revisions_events(ts.drop_last()) + revision_events(ts.last())
    }
}

/// The events of a `page` element with the title `t` and revisions with the
/// texts `ts`.
pub open spec fn page_events(t: Seq<char>, ts: Seq<Seq<char>>) -> Seq<EventView> {
    seq![
        EventView::Start("page"@),
        EventView::Start("title"@),
        EventView::Characters(t),
        EventView::End("title"@),
    ] + revisions_events(ts) + seq![EventView::End("page"@)]
}

/// One character-data event for each fragment of `fs`, in order.
pub open spec fn character_events(fs: Seq<Seq<char>>) -> Seq<EventView>
    decreases fs.len(),
{
    if fs.len() == 0 {
        Seq::empty()
    } else {
        character_events(fs.drop_last()).push(EventView::Characters(fs.last()))
    }
}

/// The fragments of `fs` joined end to end.
pub open spec fn joined(fs: Seq<Seq<char>>) -> Seq<char>
    decreases fs.len(),
{
    if fs.len() == 0 {
        Seq::empty()
    } else {
        joined(fs.drop_last()) + fs.last()
    }
}

proof fn lemma_tag_names_differ()
    ensures
        "page"@ != "title"@,
        "page"@ != "text"@,
        "page"@ != "revision"@,
        "title"@ != "text"@,
        "title"@ != "revision"@,
        "text"@ != "revision"@,
{
    reveal_strlit("page");
    reveal_strlit("title");
    reveal_strlit("text");
    reveal_strlit("revision");
    assert("page"@.len() != "title"@.len());
    assert("page"@[0] != "text"@[0]);
    assert("page"@.len() != "revision"@.len());
    assert("title"@.len() != "text"@.len());
    assert("title"@.len() != "revision"@.len());
    assert("text"@.len() != "revision"@.len());
}

proof fn lemma_run_push(s: BuilderView, evs: Seq<EventView>, e: EventView)
    ensures
        run(s, evs.push(e)) == match run(s, evs) {
            Transition::Next(s1, StepView::Continue) => step(s1, e),
            other => other,
        },
{
    assert(evs.push(e).drop_last() =~= evs);
}

proof fn lemma_run_append(s: BuilderView, a: Seq<EventView>, b: Seq<EventView>)
    ensures
        run(s, a + b) == match run(s, a) {
            Transition::Next(s1, StepView::Continue) => run(s1, b),
            other => other,
        },
    decreases b.len(),
{
    if b.len() == 0 {
        assert(a + b =~= a);
    } else {
        lemma_run_append(s, a, b.drop_last());
        assert((a + b).drop_last() =~= a + b.drop_last());
        assert((a + b).last() == b.last());
    }
}

proof fn lemma_run_four(s: BuilderView, e0: EventView, e1: EventView, e2: EventView, e3: EventView)
    ensures
        run(s, seq![e0, e1, e2, e3]) == run(s, seq![e0, e1, e2].push(e3)),
        run(s, seq![e0, e1, e2]) == run(s, seq![e0, e1].push(e2)),
        run(s, seq![e0, e1]) == run(s, seq![e0].push(e1)),
        run(s, seq![e0]) == run(s, Seq::<EventView>::empty().push(e0)),
{
    assert(seq![e0, e1, e2, e3] =~= seq![e0, e1, e2].push(e3));
    assert(seq![e0, e1, e2] =~= seq![e0, e1].push(e2));
    assert(seq![e0, e1] =~= seq![e0].push(e1));
    assert(seq![e0] =~= Seq::<EventView>::empty().push(e0));
}

proof fn lemma_revision(s: BuilderView, x: Seq<char>)
    requires
        s.text is None,
    ensures
        run(s, revision_events(x)) == Transition::Next(
            BuilderView { content: x, revisions: s.revisions.push(x), ..s },
            StepView::Continue,
        ),
{
    lemma_tag_names_differ();
    let e = revision_events(x);
    let e0 = EventView::Start("revision"@);
    let e1 = EventView::Start("text"@);
    let e2 = EventView::Characters(x);
    let e3 = EventView::End("text"@);
    let e4 = EventView::End("revision"@);
    assert(e =~= seq![e0, e1, e2, e3].push(e4));
    lemma_run_four(s, e0, e1, e2, e3);
    lemma_run_push(s, seq![e0, e1, e2, e3], e4);
    lemma_run_push(s, seq![e0, e1, e2], e3);
    lemma_run_push(s, seq![e0, e1], e2);
    lemma_run_push(s, seq![e0], e1);
    lemma_run_push(s, Seq::empty(), e0);
    let t1 = s.tags.push("revision"@);
    let t2 = t1.push("text"@);
    assert(t2.drop_last() =~= t1);
    assert(t1.drop_last() =~= s.tags);
}

proof fn lemma_revisions(s: BuilderView, ts: Seq<Seq<char>>)
    requires
        s.text is None,
    ensures
        run(s, revisions_events(ts)) is Next,
        run(s, revisions_events(ts))->Next_1 == StepView::Continue,
        run(s, revisions_events(ts))->Next_0.tags == s.tags,
        run(s, revisions_events(ts))->Next_0.title == s.title,
        run(s, revisions_events(ts))->Next_0.text is None,
        run(s, revisions_events(ts))->Next_0.revisions == s.revisions + ts,
    decreases ts.len(),
{
    if ts.len() == 0 {
        assert(s.revisions + ts =~= s.revisions);
    } else {
        let init = ts.drop_last();
        lemma_revisions(s, init);
        let s1 = run(s, revisions_events(init))->Next_0;
        lemma_run_append(s, revisions_events(init), revision_events(ts.last()));
        lemma_revision(s1, ts.last());
        assert(s.revisions + ts =~= (s.revisions + init).push(ts.last()));
    }
}

/// A `page` element with a title and any number of revisions, fed to a state
/// with no page under way, yields that page with its revisions in document
/// order, and leaves no page under way, with the same elements open.
pub proof fn lemma_page_yields_revisions(s: BuilderView, t: Seq<char>, ts: Seq<Seq<char>>)
    requires
        is_fresh(s),
    ensures
        run(s, page_events(t, ts)) is Next,
        run(s, page_events(t, ts))->Next_1 == StepView::Emit(PageView { title: t, revisions: ts }),
        is_fresh(run(s, page_events(t, ts))->Next_0),
        run(s, page_events(t, ts))->Next_0.tags == s.tags,
{
    lemma_tag_names_differ();
    let e0 = EventView::Start("page"@);
    let e1 = EventView::Start("title"@);
    let e2 = EventView::Characters(t);
    let e3 = EventView::End("title"@);
    let head = seq![e0, e1, e2, e3];
    lemma_run_four(s, e0, e1, e2, e3);
    lemma_run_push(s, seq![e0, e1, e2], e3);
    lemma_run_push(s, seq![e0, e1], e2);
    lemma_run_push(s, seq![e0], e1);
    lemma_run_push(s, Seq::empty(), e0);
    let t1 = s.tags.push("page"@);
    let t2 = t1.push("title"@);
    assert(t2.drop_last() =~= t1);
    assert(t1.drop_last() =~= s.tags);
    let sh = run(s, head)->Next_0;
    assert(sh.tags == t1 && sh.title == Some(t) && sh.revisions == s.revisions);
    lemma_revisions(sh, ts);
    let sr = run(sh, revisions_events(ts))->Next_0;
    assert(s.revisions + ts =~= ts);
    lemma_run_append(s, head, revisions_events(ts));
    let body = head + revisions_events(ts);
    lemma_run_push(s, body, EventView::End("page"@));
    assert(page_events(t, ts) =~= body.push(EventView::End("page"@)));
}

/// Character data that reaches an element in several fragments is joined in
/// order: a `text` element whose characters come as the fragments `fs`
/// captures their concatenation as the revision text.
pub proof fn lemma_fragments_concatenate(s: BuilderView, fs: Seq<Seq<char>>)
    ensures
        run(s, seq![EventView::Start("text"@)] + character_events(fs) + seq![EventView::End("text"@)])
            == Transition::Next(
            BuilderView { content: joined(fs), text: Some(joined(fs)), ..s },
            StepView::Continue,
        ),
{
    lemma_tag_names_differ();
    let open = seq![EventView::Start("text"@)];
    lemma_open_then_fragments(s, fs);
    let body = open + character_events(fs);
    lemma_run_push(s, body, EventView::End("text"@));
    assert(open + character_events(fs) + seq![EventView::End("text"@)] =~= body.push(
        EventView::End("text"@),
    ));
    assert(s.tags.push("text"@).drop_last() =~= s.tags);
}

proof fn lemma_open_then_fragments(s: BuilderView, fs: Seq<Seq<char>>)
    ensures
        run(s, seq![EventView::Start("text"@)] + character_events(fs)) == Transition::Next(
            BuilderView { tags: s.tags.push("text"@), content: joined(fs), ..s },
            StepView::Continue,
        ),
    decreases fs.len(),
{
    let open = seq![EventView::Start("text"@)];
    if fs.len() == 0 {
        assert(open + character_events(fs) =~= Seq::<EventView>::empty().push(
            EventView::Start("text"@),
        ));
        lemma_run_push(s, Seq::empty(), EventView::Start("text"@));
    } else {
        lemma_open_then_fragments(s, fs.drop_last());
        assert(open + character_events(fs) =~= (open + character_events(fs.drop_last())).push(
            EventView::Characters(fs.last()),
        ));
        lemma_run_push(s, open + character_events(fs.drop_last()), EventView::Characters(fs.last()));
    }
}

/// Closing a `page` element while no title has been captured is fatal.
pub proof fn lemma_page_without_title(s: BuilderView)
    requires
        s.title is None,
    ensures
        step(s, EventView::End("page"@)) == Transition::MissingTitle,
{
}

/// While no title has been captured, and no `title` element closes among the
/// events `evs`, no page is yielded: a `page` element that closes stops the
/// run with `MissingTitle`, and a run that goes on still has no title.
pub proof fn lemma_no_page_without_title(s: BuilderView, evs: Seq<EventView>)
    requires
        s.title is None,
        forall|i: int| 0 <= i < evs.len() ==> evs[i] != EventView::End("title"@),
    ensures
        !(run(s, evs) is Next && run(s, evs)->Next_1 is Emit),
        run(s, evs) is Next && run(s, evs)->Next_1 is Continue ==> run(s, evs)->Next_0.title
            is None,
    decreases evs.len(),
{
    if evs.len() > 0 {
        let init = evs.drop_last();
        assert forall|i: int| 0 <= i < init.len() implies init[i] != EventView::End("title"@) by {
            assert(init[i] == evs[i]);
        }
        lemma_no_page_without_title(s, init);
        assert(evs.last() == evs[evs.len() - 1]);
    }
}

/// Closing a `revision` element while no text has been captured for it is
/// fatal.
pub proof fn lemma_revision_without_text(s: BuilderView)
    requires
        s.text is None,
    ensures
        step(s, EventView::End("revision"@)) == Transition::MissingText,
{
    lemma_tag_names_differ();
}

/// Two sibling `page` elements, pulled one after the other, give the two
/// pages in document order, each with its own revisions only.
pub proof fn lemma_two_pages(
    s: BuilderView,
    t1: Seq<char>,
    ts1: Seq<Seq<char>>,
    t2: Seq<char>,
    ts2: Seq<Seq<char>>,
)
    requires
        is_fresh(s),
    ensures
        run(s, page_events(t1, ts1)) is Next,
        run(s, page_events(t1, ts1))->Next_1 == StepView::Emit(PageView { title: t1, revisions: ts1 }),
        run(run(s, page_events(t1, ts1))->Next_0, page_events(t2, ts2)) is Next,
        run(run(s, page_events(t1, ts1))->Next_0, page_events(t2, ts2))->Next_1 == StepView::Emit(
            PageView { title: t2, revisions: ts2 },
        ),
{
    lemma_page_yields_revisions(s, t1, ts1);
    lemma_page_yields_revisions(run(s, page_events(t1, ts1))->Next_0, t2, ts2);
}

} // verus!
