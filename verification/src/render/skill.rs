//! Skill lists in a message: a heading `skills` or `available skills` of level two or three,
//! with a bullet list right behind it.

use vstd::prelude::*;

use crate::render::markdown_events::{MdEnd, MdEvent, MdEventView, MdTag, MdTagView};
use crate::text::{chars_of, find_chars, same, slice_text, trimmed, Duplicate};

verus! {

/// One skill: its name and what is said of it.
#[derive(Debug, PartialEq, Eq)]
pub struct SkillItem {
    pub name: String,
    pub description: String,
}

/// What a [`SkillItem`] stands for.
#[verifier::ext_equal]
pub struct SkillItemView {
    pub name: Seq<char>,
    pub description: Seq<char>,
}

impl View for SkillItem {
    type V = SkillItemView;

    open spec fn view(&self) -> SkillItemView {
        SkillItemView { name: self.name@, description: self.description@ }
    }
}

impl Duplicate for SkillItem {
    fn duplicate(&self) -> (r: Self) {
        SkillItem { name: self.name.clone(), description: self.description.clone() }
    }
}

impl Clone for SkillItem {
    fn clone(&self) -> (r: Self)
        ensures
            r@ == self@,
    {
        self.duplicate()
    }
}

/// A text in lower case, as `str::to_lowercase` writes it.
pub uninterp spec fn lower_case(s: Seq<char>) -> Seq<char>;

/// `str::to_lowercase`: the text in lower case, in all of Unicode. Of ASCII characters alone only
/// the letters `A` to `Z` change, each to its small form.
#[verifier::external_body]
fn to_lower_case(s: &str) -> (r: String)
    ensures
        r@ == lower_case(s@),
        (forall|i: int| 0 <= i < s@.len() ==> #[trigger] s@[i] < '\u{80}') ==> r@
            == crate::text::lower_text(s@),
{
    s.to_lowercase()
}

/// The place of the last opening bracket at or before `n`, -1 where there is none.
pub open spec fn last_open(s: Seq<char>, n: int) -> int
    decreases n + 1,
{
    if n < 0 || n >= s.len() {
        -1
    } else if s[n] == '(' {
        n
    } else {
        last_open(s, n - 1)
    }
}

/// A heading without the count in brackets at its end.
pub open spec fn without_count(s: Seq<char>) -> Seq<char> {
    let open = last_open(s, s.len() - 1);
    if open >= 0 && s.last() == ')' && crate::text::all_digits(
        s.subrange(open + 1, s.len() - 1),
    ) {
        s.take(open)
    } else {
        s
    }
}

/// Whether a heading, in lower case, announces skills.
pub open spec fn announces(lower: Seq<char>) -> bool {
    let heading = crate::text::trim(without_count(lower));
    heading == "skills"@ || heading == "available skills"@
}

/// Whether a heading announces skills: `skills` or `available skills`, in any case, with a
/// count in brackets behind it or not.
pub open spec fn announces_skills(text: Seq<char>) -> bool {
    announces(lower_case(crate::text::trim(text)))
}

/// Whether a heading in lower case announces skills.
pub fn is_lower_skills_heading(lower: &str) -> (r: bool)
    ensures
        r == announces(lower@),
{
    let chars = chars_of(lower);
    let n = chars.len();
    let mut heading = lower.to_owned();
    if n > 0 && chars[n - 1] == ')' {
        let mut open: usize = n - 1;
        while open > 0 && chars[open] != '('
            invariant
                open < n,
                n == chars.len(),
                last_open(chars@, n - 1) == last_open(chars@, open as int),
            decreases open,
        {
            open = open - 1;
        }
        proof {
            reveal_with_fuel(last_open, 2);
        }
        if chars[open] == '(' {
            let mut digits = true;
            let mut i: usize = open + 1;
            proof {
                assert(open < n - 1);
            }
            while i < n - 1
                invariant
                    open < i <= n - 1,
                    n == chars.len(),
                    digits == crate::text::all_digits(chars@.subrange(open + 1, i as int)),
                decreases n - i,
            {
                let ghost before = chars@.subrange(open + 1, i as int);
                let ghost after = chars@.subrange(open + 1, i + 1);
                proof {
                    assert(after =~= before.push(chars@[i as int]));
                    assert(after[i - open - 1] == chars@[i as int]);
                    assert forall|k: int| 0 <= k < before.len() implies before[k] == after[k] by {}
                }
                if !('0' <= chars[i] && chars[i] <= '9') {
                    digits = false;
                }
                proof {
                    if crate::text::all_digits(before) && '0' <= chars@[i as int] <= '9' {
                        assert forall|k: int| 0 <= k < after.len() implies '0' <= #[trigger] after[k]
                            <= '9' by {
                            if k < before.len() {
                                assert(before[k] == after[k]);
                            }
                        }
                    }
                    if !crate::text::all_digits(before) {
                        let k = choose|k: int|
                            0 <= k < before.len() && !('0' <= #[trigger] before[k] <= '9');
                        assert(before[k] == after[k]);
                    }
                }
                i = i + 1;
            }
            if digits {
                heading = slice_text(&chars, 0, open);
                proof {
                    assert(heading@ =~= chars@.take(open as int));
                }
            }
        }
    }
    let heading = trimmed(heading.as_str());
    same(heading.as_str(), "skills") || same(heading.as_str(), "available skills")
}

/// Whether a heading announces skills.
pub fn is_skills_heading(text: &str) -> (r: bool)
    ensures
        r == announces_skills(text@),
{
    let lower = to_lower_case(trimmed(text).as_str());
    is_lower_skills_heading(lower.as_str())
}

/// A text split at the first of some separators that stands in it, by the order of the
/// separators; `None` where the name would be empty.
pub open spec fn split_item(text: Seq<char>, separators: Seq<Seq<char>>) -> Option<SkillItemView>
    decreases separators.len(),
{
    if separators.len() == 0 {
        Some(SkillItemView { name: text, description: Seq::empty() })
    } else {
        match crate::text::find(text, separators[0]) {
            Some(i) => {
                let name = crate::text::trim(text.take(i));
                if name.len() == 0 {
                    None
                } else {
                    Some(
                        SkillItemView {
                            name,
                            description: crate::text::trim(text.skip(i + separators[0].len())),
                        },
                    )
                }
            },
            None => split_item(text, separators.drop_first()),
        }
    }
}

/// What separates a skill's name from what is said of it.
pub open spec fn separators() -> Seq<Seq<char>> {
    seq![" — "@, " - "@, "："@, ": "@]
}

/// The skill of a list item: its name and what is said of it; none for a blank item and for
/// one without a name.
pub open spec fn skill_item(text: Seq<char>) -> Option<SkillItemView> {
    let t = crate::text::trim(text);
    if t.len() == 0 {
        None
    } else {
        split_item(t, separators())
    }
}

/// The skill of a list item.
pub fn parse_skill_item(text: &str) -> (r: Option<SkillItem>)
    ensures
        crate::text::opt_view(r) == skill_item(text@),
{
    let t = trimmed(text);
    if t.as_str().is_empty() {
        return None;
    }
    let chars = chars_of(t.as_str());
    let mut marks: Vec<&str> = Vec::new();
    marks.push(" — ");
    marks.push(" - ");
    marks.push("：");
    marks.push(": ");
    let ghost all = separators();
    proof {
        assert(all.skip(0) =~= all);
    }
    let mut i: usize = 0;
    while i < marks.len()
        invariant
            i <= marks.len(),
            marks.len() == 4,
            all == separators(),
            marks@[0]@ == all[0] && marks@[1]@ == all[1] && marks@[2]@ == all[2] && marks@[3]@
                == all[3],
            chars@ == t@,
            t@ == crate::text::trim(text@),
            t@.len() > 0,
            skill_item(text@) == split_item(t@, all.skip(i as int)),
        decreases marks.len() - i,
    {
        proof {
            assert(all.skip(i as int)[0] == all[i as int]);
            assert(all.skip(i as int).drop_first() =~= all.skip(i + 1));
        }
        let mark = marks[i];
        match find_chars(&chars, mark) {
            Some(at) => {
                let name = trimmed(slice_text(&chars, 0, at).as_str());
                proof {
                    assert(chars@.subrange(0, at as int) =~= chars@.take(at as int));
                }
                if name.as_str().is_empty() {
                    return None;
                }
                let n = chars_of(mark).len();
                let rest = slice_text(&chars, at + n, chars.len());
                proof {
                    assert(rest@ =~= chars@.skip(at + n));
                }
                return Some(SkillItem { name, description: trimmed(rest.as_str()) });
            },
            None => {},
        }
        i = i + 1;
    }
    let description = String::new();
    proof {
        assert(description@ =~= Seq::empty());
    }
    Some(SkillItem { name: t, description })
}

/// The text of a heading, read from event `j` on, and where it ends; no text where the heading
/// holds more than text.
pub open spec fn heading_text(events: Seq<MdEventView>, j: int, so_far: Seq<char>) -> (
    Seq<char>,
    int,
)
    decreases events.len() - j,
{
    if j < 0 || j >= events.len() {
        (so_far, j)
    } else {
        match events[j] {
            MdEventView::Text(text) => heading_text(events, j + 1, so_far + text),
            MdEventView::SoftBreak => heading_text(events, j + 1, so_far.push(' ')),
            MdEventView::End(MdEnd::Heading) => (so_far, j),
            _ => (Seq::empty(), j),
        }
    }
}

/// A list on the way through its events: the skills so far, the depth of nesting, and the open
/// texts of the item and of the item nested in it.
pub struct WalkView {
    pub items: Seq<SkillItemView>,
    pub depth: nat,
    pub top: Seq<char>,
    pub sub: Seq<char>,
}

/// The skills with one more, where there is one.
pub open spec fn with_item(items: Seq<SkillItemView>, item: Option<SkillItemView>) -> Seq<
    SkillItemView,
> {
    match item {
        Some(item) => items.push(item),
        None => items,
    }
}

/// The skills with a text added to what is said of the last one.
pub open spec fn with_more(items: Seq<SkillItemView>, text: Seq<char>) -> Seq<SkillItemView> {
    if text.len() == 0 || items.len() == 0 {
        items
    } else {
        let last = items.last();
        items.update(
            items.len() - 1,
            SkillItemView {
                name: last.name,
                description: if last.description.len() == 0 {
                    text
                } else {
                    last.description.push(' ') + text
                },
            },
        )
    }
}

impl WalkView {
    /// More text in the item, or in the item nested in it.
    pub open spec fn with_text(self, text: Seq<char>) -> WalkView {
        if self.depth >= 2 {
            WalkView { sub: self.sub + text, ..self }
        } else {
            WalkView { top: self.top + text, ..self }
        }
    }

    /// The end of an item. One that is nested goes on with what is said of the item around it.
    pub open spec fn with_end(self) -> WalkView {
        if self.depth >= 2 {
            let named = if crate::text::trim(self.top).len() == 0 {
                self
            } else {
                WalkView {
                    items: with_item(self.items, skill_item(crate::text::trim(self.top))),
                    top: Seq::empty(),
                    ..self
                }
            };
            WalkView {
                items: with_more(named.items, crate::text::trim(named.sub)),
                sub: Seq::empty(),
                ..named
            }
        } else {
            WalkView {
                items: with_item(self.items, skill_item(crate::text::trim(self.top))),
                top: Seq::empty(),
                ..self
            }
        }
    }

    /// One more event.
    pub open spec fn after(self, event: MdEventView) -> WalkView {
        match event {
            MdEventView::Start(MdTagView::List(_)) => WalkView { depth: self.depth + 1, ..self },
            MdEventView::End(MdEnd::List) => WalkView {
                depth: if self.depth > 0 {
                    (self.depth - 1) as nat
                } else {
                    0
                },
                ..self
            },
            MdEventView::Text(text) => self.with_text(text),
            MdEventView::Code(text) => self.with_text(text),
            MdEventView::SoftBreak => self.with_text(seq![' ']),
            MdEventView::End(MdEnd::Item) => self.with_end(),
            _ => self,
        }
    }
}

/// A list read from event `k` on, to its end.
pub open spec fn walk(events: Seq<MdEventView>, k: int, so_far: WalkView) -> (WalkView, int)
    decreases events.len() - k,
{
    if k < 0 || k >= events.len() {
        (so_far, k)
    } else {
        let next = so_far.after(events[k]);
        if events[k] == MdEventView::End(MdEnd::List) && next.depth == 0 {
            (next, k)
        } else {
            walk(events, k + 1, next)
        }
    }
}

/// The start of a list.
pub open spec fn walk_start() -> WalkView {
    WalkView { items: Seq::empty(), depth: 0, top: Seq::empty(), sub: Seq::empty() }
}

/// A skill list among the events of a message: the events from `start` to `end`, and its
/// skills.
#[derive(Debug)]
pub struct SkillBlock {
    pub start: usize,
    pub end: usize,
    pub items: Vec<SkillItem>,
}

/// What a [`SkillBlock`] stands for.
#[verifier::ext_equal]
pub struct SkillBlockView {
    pub start: int,
    pub end: int,
    pub items: Seq<SkillItemView>,
}

impl View for SkillBlock {
    type V = SkillBlockView;

    open spec fn view(&self) -> SkillBlockView {
        SkillBlockView {
            start: self.start as int,
            end: self.end as int,
            items: crate::text::views(self.items@),
        }
    }
}

/// Whether an event opens a heading of level two or three.
pub open spec fn opens_heading(event: MdEventView) -> bool {
    event matches MdEventView::Start(MdTagView::Heading(level)) && (level == 2 || level == 3)
}

/// Whether an event opens a bullet list.
pub open spec fn opens_bullets(event: MdEventView) -> bool {
    event == MdEventView::Start(MdTagView::List(None))
}

/// The first skill list at or behind event `index`.
pub open spec fn skill_block_from(events: Seq<MdEventView>, index: int) -> Option<SkillBlockView>
    decreases events.len() - index,
{
    if index < 0 || index >= events.len() {
        None
    } else if !opens_heading(events[index]) {
        skill_block_from(events, index + 1)
    } else {
        let (heading, j) = heading_text(events, index + 1, Seq::empty());
        if !announces_skills(heading) || j <= index {
            skill_block_from(events, index + 1)
        } else if j + 1 >= events.len() {
            None
        } else if opens_bullets(events[j + 1]) && walk(
            events,
            j + 1,
            walk_start(),
        ).0.items.len() > 0 {
            let (done, end) = walk(events, j + 1, walk_start());
            Some(SkillBlockView { start: index, end, items: done.items })
        } else {
            skill_block_from(events, j + 1)
        }
    }
}

/// The first skill list of a message.
pub open spec fn skill_block(events: Seq<MdEventView>) -> Option<SkillBlockView> {
    skill_block_from(events, 0)
}

fn collect_heading(events: &Vec<MdEvent>, from: usize) -> (r: (String, usize))
    requires
        from <= events@.len(),
    ensures
        (r.0@, r.1 as int) == heading_text(
            crate::text::views(events@),
            from as int,
            Seq::empty(),
        ),
        from <= r.1 <= events@.len(),
{
    let ghost all = crate::text::views(events@);
    let mut heading = String::new();
    let mut j: usize = from;
    proof {
        assert(heading@ =~= Seq::empty());
    }
    while j < events.len()
        invariant
            from <= j <= events.len(),
            all == crate::text::views(events@),
            heading_text(all, from as int, Seq::empty()) == heading_text(all, j as int, heading@),
        decreases events.len() - j,
    {
        proof {
            assert(all[j as int] == events@[j as int]@);
        }
        match &events[j] {
            MdEvent::Text(text) => heading.append(text.as_str()),
            MdEvent::SoftBreak => heading.push(' '),
            MdEvent::End(MdEnd::Heading) => return (heading, j),
            _ => {
                let nothing = String::new();
                proof {
                    assert(nothing@ =~= Seq::empty());
                }
                return (nothing, j);
            },
        }
        j = j + 1;
    }
    (heading, j)
}

struct Walk {
    items: Vec<SkillItem>,
    depth: usize,
    top: String,
    sub: String,
}

impl View for Walk {
    type V = WalkView;

    closed spec fn view(&self) -> WalkView {
        WalkView {
            items: crate::text::views(self.items@),
            depth: self.depth as nat,
            top: self.top@,
            sub: self.sub@,
        }
    }
}

fn add_item(items: &mut Vec<SkillItem>, item: Option<SkillItem>)
    ensures
        crate::text::views(final(items)@) == with_item(
            crate::text::views(old(items)@),
            crate::text::opt_view(item),
        ),
{
    match item {
        Some(item) => {
            proof {
                assert(crate::text::views(items@.push(item)) =~= crate::text::views(items@).push(
                    item@,
                ));
            }
            items.push(item);
        },
        None => {},
    }
}

fn add_more(items: &mut Vec<SkillItem>, text: String)
    ensures
        crate::text::views(final(items)@) == with_more(crate::text::views(old(items)@), text@),
{
    let n = items.len();
    if text.as_str().is_empty() || n == 0 {
        return;
    }
    let ghost before = crate::text::views(items@);
    let name = items[n - 1].name.clone();
    let description = if items[n - 1].description.as_str().is_empty() {
        text
    } else {
        let mut longer = items[n - 1].description.clone();
        longer.push(' ');
        longer.append(text.as_str());
        longer
    };
    let item = SkillItem { name, description };
    let ghost view = item@;
    items.set(n - 1, item);
    proof {
        assert(crate::text::views(items@) =~= before.update(n - 1, view));
    }
}

impl Walk {
    fn add_text(&mut self, text: &str)
        ensures
            final(self)@ == old(self)@.with_text(text@),
    {
        if self.depth >= 2 {
            self.sub.append(text);
        } else {
            self.top.append(text);
        }
    }

    fn end_item(&mut self)
        ensures
            final(self)@ == old(self)@.with_end(),
    {
        if self.depth >= 2 {
            let top = trimmed(self.top.as_str());
            if !top.as_str().is_empty() {
                let item = parse_skill_item(top.as_str());
                add_item(&mut self.items, item);
                self.top = String::new();
            }
            let sub = trimmed(self.sub.as_str());
            add_more(&mut self.items, sub);
            self.sub = String::new();
        } else {
            let top = trimmed(self.top.as_str());
            let item = parse_skill_item(top.as_str());
            add_item(&mut self.items, item);
            self.top = String::new();
        }
    }

    fn take(&mut self, event: &MdEvent)
        requires
            old(self)@.depth < usize::MAX,
        ensures
            final(self)@ == old(self)@.after(event@),
    {
        match event {
            MdEvent::Start(MdTag::List(_)) => {
                self.depth = self.depth + 1;
            },
            MdEvent::End(MdEnd::List) => {
                if self.depth > 0 {
                    self.depth = self.depth - 1;
                }
            },
            MdEvent::Text(text) => self.add_text(text.as_str()),
            MdEvent::Code(text) => self.add_text(text.as_str()),
            MdEvent::SoftBreak => {
                proof {
                    reveal_strlit(" ");
                    assert(" "@ =~= seq![' ']);
                }
                self.add_text(" ")
            },
            MdEvent::End(MdEnd::Item) => self.end_item(),
            _ => {},
        }
    }
}

fn walk_list(events: &Vec<MdEvent>, from: usize) -> (r: (Vec<SkillItem>, usize))
    requires
        from <= events@.len(),
    ensures
        ({
            let (done, end) = walk(crate::text::views(events@), from as int, walk_start());
            crate::text::views(r.0@) == done.items && r.1 == end
        }),
{
    let ghost all = crate::text::views(events@);
    let mut w = Walk { items: Vec::new(), depth: 0, top: String::new(), sub: String::new() };
    proof {
        assert(w@.items =~= Seq::empty());
        assert(w@.top =~= Seq::empty());
        assert(w@.sub =~= Seq::empty());
        assert(w@ == walk_start());
    }
    let mut k: usize = from;
    while k < events.len()
        invariant
            from <= k <= events.len(),
            all == crate::text::views(events@),
            w@.depth <= k - from,
            walk(all, from as int, walk_start()) == walk(all, k as int, w@),
        decreases events.len() - k,
    {
        proof {
            assert(all[k as int] == events@[k as int]@);
        }
        w.take(&events[k]);
        let ends = match &events[k] {
            MdEvent::End(MdEnd::List) => true,
            _ => false,
        };
        if ends && w.depth == 0 {
            return (w.items, k);
        }
        k = k + 1;
    }
    (w.items, k)
}

/// The first skill list of a message.
pub fn detect_skill_block(events: &Vec<MdEvent>) -> (r: Option<SkillBlock>)
    ensures
        crate::text::opt_view(r) == skill_block(crate::text::views(events@)),
{
    let ghost all = crate::text::views(events@);
    let mut index: usize = 0;
    while index < events.len()
        invariant
            all == crate::text::views(events@),
            skill_block(all) == skill_block_from(all, index as int),
        decreases events.len() - index,
    {
        proof {
            assert(all[index as int] == events@[index as int]@);
        }
        let opens = match &events[index] {
            MdEvent::Start(MdTag::Heading(level)) => *level == 2 || *level == 3,
            _ => false,
        };
        if !opens {
            index = index + 1;
            continue ;
        }
        let (heading, j) = collect_heading(events, index + 1);
        if !is_skills_heading(heading.as_str()) {
            index = index + 1;
            continue ;
        }
        if j < events.len() - 1 {
            proof {
                assert(all[j + 1] == events@[j + 1]@);
            }
            let bullets = match &events[j + 1] {
                MdEvent::Start(MdTag::List(None)) => true,
                _ => false,
            };
            if bullets {
                let (items, end) = walk_list(events, j + 1);
                proof {
                    assert(crate::text::views(items@).len() == items@.len());
                }
                if items.len() > 0 {
                    return Some(SkillBlock { start: index, end, items });
                }
            }
            index = j + 1;
        } else {
            return None;
        }
    }
    None
}

} // verus!
