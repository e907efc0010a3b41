//! What the nodes of a chat look like, whatever they hold.

use vstd::prelude::*;

use crate::render::markdown::SceneView;
use crate::render::sink::{LookView, RenderedView};
use crate::render::style::{LineView, Style};
use crate::store::event_data::ContentBlockView;
use crate::store::node::{
    AssistantBlockView, ChatNodeView, NodeDataView, RunningToolCallView, ToolResultNodeView,
};

verus! {

/// Two renderings one below the other: the lines of the first and then those of the second, and
/// what is marked as code is the code of each.
pub proof fn law_stacked(a: RenderedView, b: RenderedView, i: int)
    ensures
        ({
            let out = crate::render::markdown::stacked(a, b);
            &&& out.lines == a.lines + b.lines
            &&& out.code_ranges.len() == a.code_ranges.len() + b.code_ranges.len()
            &&& 0 <= i < a.code_ranges.len() && a.fine() ==> out.lines.subrange(
                out.code_ranges[i].0 as int,
                out.code_ranges[i].1 as int,
            ) == a.lines.subrange(a.code_ranges[i].0 as int, a.code_ranges[i].1 as int)
            &&& 0 <= i < b.code_ranges.len() && b.fine() ==> out.lines.subrange(
                out.code_ranges[a.code_ranges.len() + i].0 as int,
                out.code_ranges[a.code_ranges.len() + i].1 as int,
            ) == b.lines.subrange(b.code_ranges[i].0 as int, b.code_ranges[i].1 as int)
        }),
{
    let out = crate::render::markdown::stacked(a, b);
    if 0 <= i < a.code_ranges.len() && a.fine() {
        let r = a.code_ranges[i];
        assert(out.code_ranges[i] == r);
        assert(out.lines.subrange(r.0 as int, r.1 as int) =~= a.lines.subrange(
            r.0 as int,
            r.1 as int,
        ));
    }
    if 0 <= i < b.code_ranges.len() && b.fine() {
        let r = b.code_ranges[i];
        let n = a.lines.len();
        assert(out.code_ranges[a.code_ranges.len() + i] == (r.0 + n, r.1 + n));
        assert(out.lines.subrange((r.0 + n) as int, (r.1 + n) as int) =~= b.lines.subrange(
            r.0 as int,
            r.1 as int,
        ));
    }
}

proof fn lemma_assistant_lines(
    a: Seq<AssistantBlockView>,
    b: Seq<AssistantBlockView>,
    look: LookView,
    folded: bool,
)
    ensures
        crate::render::markdown::assistant_blocks(a + b, look, folded).lines
            == crate::render::markdown::assistant_blocks(a, look, folded).lines
            + crate::render::markdown::assistant_blocks(b, look, folded).lines,
    decreases b.len(),
{
    if b.len() == 0 {
        assert(a + b =~= a);
        assert(crate::render::markdown::assistant_blocks(a, look, folded).lines + Seq::<
            LineView,
        >::empty() =~= crate::render::markdown::assistant_blocks(a, look, folded).lines);
    } else {
        lemma_assistant_lines(a, b.drop_last(), look, folded);
        assert((a + b).drop_last() =~= a + b.drop_last());
        assert((a + b).last() == b.last());
        let x = crate::render::markdown::assistant_blocks(a, look, folded).lines;
        let y = crate::render::markdown::assistant_blocks(b.drop_last(), look, folded).lines;
        let z = crate::render::markdown::assistant_block(b.last(), look, folded).lines;
        assert(x + y + z =~= x + (y + z));
    }
}

/// The lines of an assistant message.
pub open spec fn assistant_lines(
    blocks: Seq<AssistantBlockView>,
    interrupted: bool,
    scene: SceneView,
    folded: bool,
) -> Seq<LineView> {
    crate::render::markdown::node_lines(
        (NodeDataView::Assistant {
            turn: 0,
            step: 0,
            blocks,
            usage: None,
            finalized: !interrupted,
            interrupted,
        }),
        false,
        scene,
        folded,
    ).text.lines
}

/// An assistant message shows its blocks one below the other, all of them and in their order:
/// the lines of two lists of blocks put together are those of the first and then those of the
/// second.
pub proof fn law_assistant_blocks_in_order(
    a: Seq<AssistantBlockView>,
    b: Seq<AssistantBlockView>,
    scene: SceneView,
    folded: bool,
)
    ensures
        assistant_lines(a + b, false, scene, folded) == assistant_lines(a, false, scene, folded)
            + assistant_lines(b, false, scene, folded),
        assistant_lines(Seq::empty(), false, scene, folded).len() == 0,
{
    lemma_assistant_lines(a, b, scene.look, folded);
}

/// A text block of an assistant message is its markdown in the color of text; reasoning is its
/// markdown, muted and dim; a tool call is one line.
pub proof fn law_assistant_block(
    text: Seq<char>,
    call_id: Seq<char>,
    name: Seq<char>,
    args_raw: Seq<char>,
    scene: SceneView,
    folded: bool,
    plain: Style,
    quiet: Style,
)
    requires
        plain == crate::render::style::fg(scene.look.theme.text),
        quiet.fg == Some(scene.look.theme.muted),
        quiet.dim,
        quiet.bg is None && !quiet.bold && !quiet.italic && !quiet.crossed_out
            && !quiet.underlined && !quiet.reversed,
    ensures
        assistant_lines(seq![AssistantBlockView::Text { text }], false, scene, folded)
            == crate::render::sink::rendered_markdown(text, plain, scene.look, folded).lines,
        assistant_lines(seq![AssistantBlockView::Reasoning { text }], false, scene, folded)
            == crate::render::sink::rendered_markdown(text, quiet, scene.look, folded).lines,
        assistant_lines(
            seq![AssistantBlockView::ToolCall { call_id, name, args_raw }],
            false,
            scene,
            folded,
        ).len() == 1,
{
    lemma_single_block(AssistantBlockView::Text { text }, scene.look, folded);
    lemma_single_block(AssistantBlockView::Reasoning { text }, scene.look, folded);
    lemma_single_block(
        AssistantBlockView::ToolCall { call_id, name, args_raw },
        scene.look,
        folded,
    );
    assert(quiet == crate::render::markdown::reasoning_style(scene.look));
}

proof fn lemma_single_block(block: AssistantBlockView, look: LookView, folded: bool)
    ensures
        crate::render::markdown::assistant_blocks(seq![block], look, folded).lines
            == crate::render::markdown::assistant_block(block, look, folded).lines,
{
    reveal_with_fuel(crate::render::markdown::assistant_blocks, 2);
    let blocks = seq![block];
    assert(blocks.drop_last() =~= Seq::empty());
    let only = crate::render::markdown::assistant_block(block, look, folded).lines;
    assert(Seq::<LineView>::empty() + only =~= only);
}

/// An interrupted message has what a settled one of the same blocks has, and one line more, at
/// its end and in the color of warnings.
pub proof fn law_interrupted_message(
    blocks: Seq<AssistantBlockView>,
    scene: SceneView,
    folded: bool,
)
    ensures
        ({
            let settled = assistant_lines(blocks, false, scene, folded);
            let cut = assistant_lines(blocks, true, scene, folded);
            &&& cut.len() == settled.len() + 1
            &&& cut.drop_last() == settled
            &&& cut.last().style.fg == Some(scene.look.theme.warning)
        }),
{
    let settled = assistant_lines(blocks, false, scene, folded);
    let cut = assistant_lines(blocks, true, scene, folded);
    assert(cut.drop_last() =~= settled);
}

/// The lines of a user message.
pub open spec fn user_lines(content: Seq<ContentBlockView>, scene: SceneView, folded: bool) -> Seq<LineView> {
    crate::render::markdown::content_blocks(
        content,
        crate::render::markdown::user_style(scene.look),
        scene,
        folded,
    ).lines
}

proof fn lemma_content_lines(
    a: Seq<ContentBlockView>,
    b: Seq<ContentBlockView>,
    style: Style,
    scene: SceneView,
    folded: bool,
)
    ensures
        crate::render::markdown::content_blocks(a + b, style, scene, folded).lines
            == crate::render::markdown::content_blocks(a, style, scene, folded).lines
            + crate::render::markdown::content_blocks(b, style, scene, folded).lines,
    decreases b.len(),
{
    if b.len() == 0 {
        assert(a + b =~= a);
        assert(crate::render::markdown::content_blocks(a, style, scene, folded).lines + Seq::<
            LineView,
        >::empty() =~= crate::render::markdown::content_blocks(a, style, scene, folded).lines);
    } else {
        lemma_content_lines(a, b.drop_last(), style, scene, folded);
        assert((a + b).drop_last() =~= a + b.drop_last());
        assert((a + b).last() == b.last());
        let x = crate::render::markdown::content_blocks(a, style, scene, folded).lines;
        let y = crate::render::markdown::content_blocks(b.drop_last(), style, scene, folded).lines;
        let z = crate::render::markdown::content_block(b.last(), style, scene, folded).lines;
        assert(x + y + z =~= x + (y + z));
    }
}

/// A user message shows its blocks one below the other, all of them and in their order; its text
/// is markdown in the color of text, on the background of user messages where the theme has one.
pub proof fn law_user_message_look(
    node: ChatNodeView,
    collapsed: bool,
    scene: SceneView,
    folds: Map<Seq<char>, bool>,
    a: Seq<ContentBlockView>,
    b: Seq<ContentBlockView>,
    text: Seq<char>,
    style: Style,
)
    requires
        node.data matches NodeDataView::User { content, .. } && content == a + b,
        style.fg == Some(scene.look.theme.text),
        style.bg == (match scene.look.theme.user_bg {
            Some(c) => Some(c),
            None => Some(crate::render::style::Color::Reset),
        }),
        !style.bold && !style.dim && !style.italic && !style.crossed_out && !style.underlined
            && !style.reversed,
    ensures
        ({
            let folded = crate::render::sink::is_folded(folds, node.key);
            &&& crate::render::markdown::node_render(node, collapsed, scene, folds).text.lines
                == user_lines(a, scene, folded) + user_lines(b, scene, folded)
            &&& user_lines(seq![ContentBlockView::Text { text }], scene, folded)
                == crate::render::sink::rendered_markdown(text, style, scene.look, folded).lines
        }),
{
    let folded = crate::render::sink::is_folded(folds, node.key);
    let own = crate::render::markdown::user_style(scene.look);
    assert(own == style);
    lemma_content_lines(a, b, own, scene, folded);
    reveal_with_fuel(crate::render::markdown::content_blocks, 2);
    let one = seq![ContentBlockView::Text { text }];
    assert(one.drop_last() =~= Seq::empty());
    let lines = crate::render::markdown::content_block(one.last(), own, scene, folded).lines;
    assert(Seq::<LineView>::empty() + lines =~= lines);
}

// ---------------------------------------------------------------------------
// tools
// ---------------------------------------------------------------------------

/// A tool goes by the name of its call; one whose call is not known goes by the name that its
/// result tells, and is else just a tool.
pub proof fn law_tool_name(call: RunningToolCallView, result: ToolResultNodeView)
    ensures
        crate::render::markdown::tool_name(Some(call), Some(result)) == call.name,
        crate::render::markdown::tool_name(Some(call), None) == call.name,
        result.call matches Some(told) ==> crate::render::markdown::tool_name(None, Some(result))
            == told.name,
        result.call is None ==> crate::render::markdown::tool_name(None, Some(result)) == "tool"@,
{
}

/// A tool that is shown in full has its name on the first line, then what its result holds, and
/// at the end a line in the color of errors where and only where it failed. One without a result
/// is its first line alone.
pub proof fn law_expanded_tool(
    call: Option<RunningToolCallView>,
    result: ToolResultNodeView,
    scene: SceneView,
    folded: bool,
)
    ensures
        ({
            let name = crate::render::markdown::tool_name(call, Some(result));
            let waiting = crate::render::markdown::tool_node(call, None, false, scene, folded).text.lines;
            let lines = crate::render::markdown::tool_node(
                call,
                Some(result),
                false,
                scene,
                folded,
            ).text.lines;
            let body = crate::render::markdown::result_content(
                result.content,
                name,
                scene,
                folded,
            ).lines;
            &&& waiting.len() == 1
            &&& lines.len() == 1 + body.len() + (if result.is_error {
                1int
            } else {
                0
            })
            &&& lines[0] == crate::render::markdown::tool_line(scene.look, name)
            &&& lines.subrange(1, 1 + body.len() as int) == body
            &&& result.is_error ==> lines.last().style.fg == Some(scene.look.theme.error)
        }),
{
    let name = crate::render::markdown::tool_name(call, Some(result));
    let lines = crate::render::markdown::tool_node(
        call,
        Some(result),
        false,
        scene,
        folded,
    ).text.lines;
    let body = crate::render::markdown::result_content(result.content, name, scene, folded).lines;
    assert(lines.subrange(1, 1 + body.len() as int) =~= body);
}

/// A tool that is shown folded is one line, in the color of errors where and only where its
/// result failed.
pub proof fn law_folded_tool(
    call: Option<RunningToolCallView>,
    result: Option<ToolResultNodeView>,
    scene: SceneView,
    folded: bool,
)
    ensures
        ({
            let lines = crate::render::markdown::tool_node(call, result, true, scene, folded).text.lines;
            let failed = result is Some && result->0.is_error;
            &&& lines.len() == 1
            &&& failed ==> lines[0].style.fg == Some(scene.look.theme.error)
            &&& !failed ==> lines[0].style.fg == Some(scene.look.theme.text)
        }),
{
}

/// The texts of a result, one below the other: two lists of texts put together read as the first
/// and, on the next line, the second.
pub proof fn law_result_text(a: Seq<ContentBlockView>, b: Seq<ContentBlockView>, text: Seq<char>)
    requires
        crate::render::markdown::joined_text(a).len() > 0,
        b.len() > 0,
        forall|i: int| 0 <= i < b.len() ==> (#[trigger] b[i]) is Text && b[i]->Text_text.len() > 0,
    ensures
        crate::render::markdown::joined_text(a + b) == crate::render::markdown::joined_text(a)
            + seq!['\n'] + crate::render::markdown::joined_text(b),
        crate::render::markdown::joined_text(seq![ContentBlockView::Text { text }]) == text,
    decreases b.len(),
{
    reveal_with_fuel(crate::render::markdown::joined_text, 2);
    let one = seq![ContentBlockView::Text { text }];
    assert(one.drop_last() =~= Seq::empty());
    let x = crate::render::markdown::joined_text(a);
    assert((a + b).drop_last() =~= a + b.drop_last());
    assert((a + b).last() == b.last());
    assert(b[b.len() - 1] == b.last());
    let last = b.last()->Text_text;
    if b.len() == 1 {
        assert(a + b.drop_last() =~= a);
        assert(b.drop_last() =~= Seq::empty());
        assert(x.push('\n') + last =~= x + seq!['\n'] + last);
    } else {
        let front = b.drop_last();
        assert forall|i: int| 0 <= i < front.len() implies (#[trigger] front[i]) is Text
            && front[i]->Text_text.len() > 0 by {
            assert(front[i] == b[i]);
        }
        law_result_text(a, front, text);
        let y = crate::render::markdown::joined_text(front);
        lemma_some_text(front);
        assert((x + seq!['\n'] + y).push('\n') + last =~= x + seq!['\n'] + (y.push('\n') + last));
    }
}

proof fn lemma_some_text(b: Seq<ContentBlockView>)
    requires
        b.len() > 0,
        forall|i: int| 0 <= i < b.len() ==> (#[trigger] b[i]) is Text && b[i]->Text_text.len() > 0,
    ensures
        crate::render::markdown::joined_text(b).len() > 0,
{
    assert(b[b.len() - 1] == b.last());
}

// ---------------------------------------------------------------------------
// notices
// ---------------------------------------------------------------------------

/// The notices of a chat are one line each: a failed turn in the color of errors, one that ran
/// out of tokens in that of warnings, compactions and unknown events muted.
pub proof fn law_notice_colors(data: NodeDataView, collapsed: bool, scene: SceneView, folded: bool)
    requires
        data is TurnError || data is TurnMaxTokens || data is Compaction || data is Unknown,
    ensures
        ({
            let lines = crate::render::markdown::node_lines(data, collapsed, scene, folded).text.lines;
            let theme = scene.look.theme;
            &&& lines.len() == 1
            &&& data is TurnError ==> lines[0].style.fg == Some(theme.error)
            &&& data is TurnMaxTokens ==> lines[0].style.fg == Some(theme.warning)
            &&& data is Compaction || data is Unknown ==> lines[0].style.fg == Some(theme.muted)
        }),
{
}

/// The skill list of a node is folded until it is unfolded, each node on its own.
pub proof fn law_skill_fold_of_node(folds: Map<Seq<char>, bool>, key: Seq<char>, other: Seq<char>, folded: bool)
    ensures
        !folds.dom().contains(key) ==> crate::render::sink::is_folded(folds, key),
        crate::render::sink::is_folded(folds.insert(key, folded), key) == folded,
        other != key ==> crate::render::sink::is_folded(folds.insert(key, folded), other)
            == crate::render::sink::is_folded(folds, other),
{
}

} // verus!
