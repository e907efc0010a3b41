//! What the lists of a message look like, whatever they hold.

use vstd::prelude::*;

use crate::render::markdown_events::{MdEnd, MdEventView, MdTagView};
use crate::render::sink::{LookView, SinkView};
use crate::render::style::{SpanView, Style};

verus! {

/// Whether an event opens a list.
pub open spec fn opens_list(e: MdEventView) -> bool {
    e matches MdEventView::Start(MdTagView::List(_))
}

/// Whether an event closes a list.
pub open spec fn closes_list(e: MdEventView) -> bool {
    e matches MdEventView::End(MdEnd::List)
}

/// Whether an event opens an item.
pub open spec fn opens_item(e: MdEventView) -> bool {
    e matches MdEventView::Start(MdTagView::Item)
}

/// How many lists the first `n` events open and do not close.
pub open spec fn depth(events: Seq<MdEventView>, n: int) -> int
    decreases n,
{
    if n <= 0 {
        0
    } else if opens_list(events[n - 1]) {
        depth(events, n - 1) + 1
    } else if closes_list(events[n - 1]) {
        depth(events, n - 1) - 1
    } else {
        depth(events, n - 1)
    }
}

/// How many items the first `n` events open outside of the lists that they open.
pub open spec fn items_before(events: Seq<MdEventView>, n: int) -> nat
    decreases n,
{
    if n <= 0 {
        0
    } else if opens_item(events[n - 1]) && depth(events, n - 1) == 0 {
        items_before(events, n - 1) + 1
    } else {
        items_before(events, n - 1)
    }
}

/// Whether some events are within one list: they close no list but those that they open.
pub open spec fn within_list(events: Seq<MdEventView>) -> bool {
    forall|n: int| 0 <= n <= events.len() ==> #[trigger] depth(events, n) >= 0
}

proof fn lemma_prefix(events: Seq<MdEventView>, more: Seq<MdEventView>, n: int)
    requires
        n <= events.len(),
        events.len() <= more.len(),
        events == more.take(events.len() as int),
    ensures
        depth(events, n) == depth(more, n),
        items_before(events, n) == items_before(more, n),
    decreases n,
{
    if n > 0 {
        lemma_prefix(events, more, n - 1);
        assert(events[n - 1] == more[n - 1]);
    }
}

proof fn lemma_list_counts(st: SinkView, start: u64, body: Seq<MdEventView>)
    requires
        within_list(body),
        start + items_before(body, body.len() as int) <= u64::MAX,
    ensures
        ({
            let base = st.lists.len();
            let opened = st.after(MdEventView::Start(MdTagView::List(Some(start))));
            let lists = crate::render::sink::sunk(opened, body, None).lists;
            &&& lists.len() == base + 1 + depth(body, body.len() as int)
            &&& lists[base as int].ordered
            &&& lists[base as int].counter == start + items_before(body, body.len() as int)
            &&& forall|i: int| 0 <= i < base ==> #[trigger] lists[i] == st.lists[i]
        }),
    decreases body.len(),
{
    if body.len() > 0 {
        let rest = body.drop_last();
        let n = body.len() as int;
        assert(rest =~= body.take(n - 1));
        assert forall|k: int| 0 <= k <= rest.len() implies #[trigger] depth(rest, k) >= 0 by {
            lemma_prefix(rest, body, k);
            assert(depth(body, k) >= 0);
        }
        lemma_prefix(rest, body, n - 1);
        assert(depth(body, n) >= 0);
        lemma_list_counts(st, start, rest);
        assert(body.last() == body[n - 1]);
    }
}

/// The items of an ordered list that starts at a number are counted from it: the marker of an
/// item is the decimal of the start and the number of the list's own items before it, a dot and
/// a blank, whatever the items hold and however deep the lists in them are. Within a link the
/// address stands before it.
pub proof fn law_ordered_item(st: SinkView, start: u64, body: Seq<MdEventView>)
    requires
        within_list(body),
        depth(body, body.len() as int) == 0,
        start + items_before(body, body.len() as int) <= u64::MAX,
    ensures
        ({
            let opened = st.after(MdEventView::Start(MdTagView::List(Some(start))));
            let at = crate::render::sink::sunk(opened, body, None);
            let item = at.after(MdEventView::Start(MdTagView::Item));
            let mark = crate::text::decimal(
                (start + items_before(body, body.len() as int)) as nat,
            ) + seq!['.', ' '];
            &&& item.current.len() == at.current.len() + 1
            &&& at.link is None ==> item.current.last().content == mark
            &&& item.current.last().content.len() >= mark.len()
            &&& item.current.last().content.skip(
                item.current.last().content.len() - mark.len(),
            ) == mark
        }),
{
    lemma_list_counts(st, start, body);
    reveal_strlit(". ");
    assert(". "@ =~= seq!['.', ' ']);
    let opened = st.after(MdEventView::Start(MdTagView::List(Some(start))));
    let at = crate::render::sink::sunk(opened, body, None);
    let item = at.after(MdEventView::Start(MdTagView::Item));
    let mark = crate::text::decimal((start + items_before(body, body.len() as int)) as nat)
        + seq!['.', ' '];
    let content = item.current.last().content;
    assert(crate::render::sink::marker(at.lists) == mark);
    assert(content.skip(content.len() - mark.len()) =~= mark);
}

/// Two items of one ordered list have different markers.
pub proof fn law_ordered_items_differ(
    st: SinkView,
    start: u64,
    one: Seq<MdEventView>,
    two: Seq<MdEventView>,
)
    requires
        within_list(one),
        within_list(two),
        depth(one, one.len() as int) == 0,
        depth(two, two.len() as int) == 0,
        items_before(one, one.len() as int) < items_before(two, two.len() as int),
        start + items_before(two, two.len() as int) <= u64::MAX,
    ensures
        ({
            let opened = st.after(MdEventView::Start(MdTagView::List(Some(start))));
            let a = crate::render::sink::sunk(opened, one, None);
            let b = crate::render::sink::sunk(opened, two, None);
            a.link is None && b.link is None ==> a.after(
                MdEventView::Start(MdTagView::Item),
            ).current.last().content != b.after(
                MdEventView::Start(MdTagView::Item),
            ).current.last().content
        }),
{
    law_ordered_item(st, start, one);
    law_ordered_item(st, start, two);
    let x = crate::text::decimal((start + items_before(one, one.len() as int)) as nat);
    let y = crate::text::decimal((start + items_before(two, two.len() as int)) as nat);
    if x + seq!['.', ' '] == y + seq!['.', ' '] {
        assert((x + seq!['.', ' ']).len() == (y + seq!['.', ' ']).len());
        assert((x + seq!['.', ' ']).take(x.len() as int) =~= x);
        assert((y + seq!['.', ' ']).take(y.len() as int) =~= y);
        crate::text_laws::law_decimal_tells_apart(
            (start + items_before(one, one.len() as int)) as nat,
            (start + items_before(two, two.len() as int)) as nat,
        );
    }
}

proof fn lemma_bullets(st: SinkView, body: Seq<MdEventView>)
    requires
        within_list(body),
    ensures
        ({
            let base = st.lists.len();
            let opened = st.after(MdEventView::Start(MdTagView::List(None)));
            let lists = crate::render::sink::sunk(opened, body, None).lists;
            &&& lists.len() == base + 1 + depth(body, body.len() as int)
            &&& !lists[base as int].ordered
            &&& forall|i: int| 0 <= i < base ==> #[trigger] lists[i] == st.lists[i]
        }),
    decreases body.len(),
{
    if body.len() > 0 {
        let rest = body.drop_last();
        let n = body.len() as int;
        assert(rest =~= body.take(n - 1));
        assert forall|k: int| 0 <= k <= rest.len() implies #[trigger] depth(rest, k) >= 0 by {
            lemma_prefix(rest, body, k);
            assert(depth(body, k) >= 0);
        }
        lemma_prefix(rest, body, n - 1);
        assert(depth(body, n) >= 0);
        lemma_bullets(st, rest);
        assert(body.last() == body[n - 1]);
    }
}

/// The items of an unordered list have a bullet for their marker, whatever they hold.
pub proof fn law_bullet_item(st: SinkView, body: Seq<MdEventView>)
    requires
        within_list(body),
        depth(body, body.len() as int) == 0,
    ensures
        ({
            let opened = st.after(MdEventView::Start(MdTagView::List(None)));
            let at = crate::render::sink::sunk(opened, body, None);
            at.link is None ==> at.after(
                MdEventView::Start(MdTagView::Item),
            ).current.last().content == seq!['•', ' ']
        }),
{
    lemma_bullets(st, body);
    reveal_strlit("• ");
    assert("• "@ =~= seq!['•', ' ']);
}

/// A list leaves the lists around it as they were: behind its end they count on from where they
/// were.
pub proof fn law_list_is_closed(st: SinkView, start: Option<u64>, body: Seq<MdEventView>)
    requires
        within_list(body),
        depth(body, body.len() as int) == 0,
        start is Some ==> start->0 + items_before(body, body.len() as int) <= u64::MAX,
    ensures
        crate::render::sink::sunk(
            st.after(MdEventView::Start(MdTagView::List(start))),
            body,
            None,
        ).after(MdEventView::End(MdEnd::List)).lists == st.lists,
{
    match start {
        Some(n) => {
            lemma_list_counts(st, n, body);
        },
        None => {
            lemma_bullets(st, body);
        },
    }
    let at = crate::render::sink::sunk(
        st.after(MdEventView::Start(MdTagView::List(start))),
        body,
        None,
    );
    assert(at.after(MdEventView::End(MdEnd::List)).lists =~= st.lists);
}

// ---------------------------------------------------------------------------
// a plain list from end to end
// ---------------------------------------------------------------------------

/// The events of a list of one-line items, without its end.
pub open spec fn item_events(start: Option<u64>, texts: Seq<Seq<char>>) -> Seq<MdEventView>
    decreases texts.len(),
{
    if texts.len() == 0 {
        seq![MdEventView::Start(MdTagView::List(start))]
    } else {
        item_events(start, texts.drop_last()).push(MdEventView::Start(MdTagView::Item)).push(
            MdEventView::Text(texts.last()),
        ).push(MdEventView::End(MdEnd::Item))
    }
}

/// The events of a list of one-line items.
pub open spec fn list_events(start: Option<u64>, texts: Seq<Seq<char>>) -> Seq<MdEventView> {
    item_events(start, texts).push(MdEventView::End(MdEnd::List))
}

/// The marker of the item `i` of a list.
pub open spec fn item_mark(start: Option<u64>, i: int) -> Seq<char> {
    match start {
        Some(n) => crate::text::decimal((n + i) as nat) + seq!['.', ' '],
        None => seq!['•', ' '],
    }
}

proof fn lemma_no_skills(events: Seq<MdEventView>, index: int)
    requires
        forall|i: int|
            0 <= i < events.len() ==> !crate::render::skill::opens_heading(#[trigger] events[i]),
    ensures
        crate::render::skill::skill_block_from(events, index) is None,
    decreases events.len() - index,
{
    if 0 <= index < events.len() {
        assert(!crate::render::skill::opens_heading(events[index]));
        lemma_no_skills(events, index + 1);
    }
}

proof fn lemma_items_plain(start: Option<u64>, texts: Seq<Seq<char>>)
    ensures
        forall|i: int|
            0 <= i < item_events(start, texts).len() ==> !crate::render::skill::opens_heading(
                #[trigger] item_events(start, texts)[i],
            ),
    decreases texts.len(),
{
    if texts.len() > 0 {
        lemma_items_plain(start, texts.drop_last());
        let before = item_events(start, texts.drop_last());
        let all = item_events(start, texts);
        assert forall|i: int| 0 <= i < all.len() implies !crate::render::skill::opens_heading(
            #[trigger] all[i],
        ) by {
            if i < before.len() {
                assert(all[i] == before[i]);
            }
        }
    }
}

proof fn lemma_two_spans(a: SpanView, b: SpanView)
    ensures
        crate::render::style::spans_text(seq![a, b]) == a.content + b.content,
{
    reveal_with_fuel(crate::render::style::spans_text, 3);
    assert(seq![a, b].drop_last() =~= seq![a]);
    assert(seq![a].drop_last() =~= Seq::empty());
    assert(Seq::<char>::empty() + a.content =~= a.content);
}

/// What a message is after one more one-line item.
#[verifier::opaque]
spec fn with_item(st: SinkView, text: Seq<char>) -> SinkView {
    st.after(MdEventView::Start(MdTagView::Item)).after(MdEventView::Text(text)).after(
        MdEventView::End(MdEnd::Item),
    )
}

/// Whether the lines of a message are the items of a list that is still open.
#[verifier::opaque]
spec fn holds_items(st: SinkView, start: Option<u64>, texts: Seq<Seq<char>>) -> bool {
    &&& st.lines.len() == texts.len()
    &&& forall|i: int|
        0 <= i < texts.len() ==> (#[trigger] st.lines[i]).text() == item_mark(start, i) + texts[i]
    &&& st.current.len() == 0
    &&& st.link is None
    &&& st.code is None
    &&& st.quotes == 0
    &&& st.lists.len() == 1
    &&& st.lists[0].ordered == (start is Some)
    &&& start is Some ==> st.lists[0].counter == start->0 + texts.len()
}

proof fn lemma_one_item(st: SinkView, start: Option<u64>, texts: Seq<Seq<char>>)
    requires
        texts.len() > 0,
        start is Some ==> start->0 + texts.len() <= u64::MAX,
        holds_items(st, start, texts.drop_last()),
    ensures
        holds_items(with_item(st, texts.last()), start, texts),
{
    reveal(with_item);
    reveal(holds_items);
    reveal_strlit(". ");
    assert(". "@ =~= seq!['.', ' ']);
    reveal_strlit("• ");
    assert("• "@ =~= seq!['•', ' ']);
    let text = texts.last();
    let k = texts.len() - 1;
    let one = st.after(MdEventView::Start(MdTagView::Item));
    let two = one.after(MdEventView::Text(text));
    let out = two.after(MdEventView::End(MdEnd::Item));
    let mark = item_mark(start, k);
    assert(crate::render::sink::marker(st.lists) == mark);
    assert(one.current =~= seq![crate::render::style::raw_span(mark)]);
    let span = crate::render::style::styled_span(text, one.text_style());
    assert(two.current =~= seq![crate::render::style::raw_span(mark), span]);
    lemma_two_spans(crate::render::style::raw_span(mark), span);
    assert(out.lines.last().spans =~= two.current);
    assert(out.lines.drop_last() =~= st.lines);
    assert forall|i: int| 0 <= i < texts.len() implies (#[trigger] out.lines[i]).text()
        == item_mark(start, i) + texts[i] by {
        if i < k {
            assert(out.lines.drop_last()[i] == st.lines[i]);
            assert(texts.drop_last()[i] == texts[i]);
        }
    }
}

proof fn lemma_sunk_push(st: SinkView, events: Seq<MdEventView>, e: MdEventView)
    ensures
        crate::render::sink::sunk(st, events.push(e), None) == crate::render::sink::sunk(
            st,
            events,
            None,
        ).after(e),
{
    assert(events.push(e).drop_last() =~= events);
}

proof fn lemma_item_sunk(st: SinkView, start: Option<u64>, texts: Seq<Seq<char>>)
    requires
        texts.len() > 0,
    ensures
        crate::render::sink::sunk(st, item_events(start, texts), None) == with_item(
            crate::render::sink::sunk(st, item_events(start, texts.drop_last()), None),
            texts.last(),
        ),
{
    reveal(with_item);
    let before = item_events(start, texts.drop_last());
    let one = before.push(MdEventView::Start(MdTagView::Item));
    let two = one.push(MdEventView::Text(texts.last()));
    lemma_sunk_push(st, before, MdEventView::Start(MdTagView::Item));
    lemma_sunk_push(st, one, MdEventView::Text(texts.last()));
    lemma_sunk_push(st, two, MdEventView::End(MdEnd::Item));
}

proof fn lemma_list_open(base: Style, look: LookView, folded: bool, start: Option<u64>)
    ensures
        holds_items(
            crate::render::sink::sunk(
                crate::render::sink::sink_start(base, look, folded),
                item_events(start, Seq::empty()),
                None,
            ),
            start,
            Seq::empty(),
        ),
{
    reveal(holds_items);
    let st = crate::render::sink::sink_start(base, look, folded);
    let open = MdEventView::Start(MdTagView::List(start));
    lemma_sunk_push(st, Seq::empty(), open);
    assert(item_events(start, Seq::empty()) =~= Seq::empty().push(open));
}

proof fn lemma_items_sunk(
    base: Style,
    look: LookView,
    folded: bool,
    start: Option<u64>,
    texts: Seq<Seq<char>>,
)
    requires
        start is Some ==> start->0 + texts.len() <= u64::MAX,
    ensures
        holds_items(
            crate::render::sink::sunk(
                crate::render::sink::sink_start(base, look, folded),
                item_events(start, texts),
                None,
            ),
            start,
            texts,
        ),
    decreases texts.len(),
{
    let st = crate::render::sink::sink_start(base, look, folded);
    if texts.len() == 0 {
        lemma_list_open(base, look, folded, start);
        assert(texts =~= Seq::empty());
    } else {
        lemma_items_sunk(base, look, folded, start, texts.drop_last());
        lemma_item_sunk(st, start, texts);
        lemma_one_item(
            crate::render::sink::sunk(st, item_events(start, texts.drop_last()), None),
            start,
            texts,
        );
    }
}

/// A list of one-line items is rendered as one line for each, in their order: the item's marker
/// and its text. In an ordered list the markers count up by one from the start.
pub proof fn law_plain_list(
    base: Style,
    look: LookView,
    folded: bool,
    start: Option<u64>,
    texts: Seq<Seq<char>>,
)
    requires
        start is Some ==> start->0 + texts.len() <= u64::MAX,
    ensures
        ({
            let lines = crate::render::sink::rendered_events(
                list_events(start, texts),
                base,
                look,
                folded,
            ).lines;
            &&& lines.len() == texts.len()
            &&& forall|i: int|
                0 <= i < texts.len() ==> (#[trigger] lines[i]).text() == item_mark(start, i)
                    + texts[i]
        }),
{
    let events = list_events(start, texts);
    lemma_items_plain(start, texts);
    assert forall|i: int| 0 <= i < events.len() implies !crate::render::skill::opens_heading(
        #[trigger] events[i],
    ) by {
        if i < events.len() - 1 {
            assert(events[i] == item_events(start, texts)[i]);
        }
    }
    lemma_no_skills(events, 0);
    lemma_items_sunk(base, look, folded, start, texts);
    reveal(holds_items);
    lemma_sunk_push(
        crate::render::sink::sink_start(base, look, folded),
        item_events(start, texts),
        MdEventView::End(MdEnd::List),
    );
}

} // verus!
