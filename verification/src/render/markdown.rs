//! The chat nodes as styled lines.

use vstd::prelude::*;

use crate::i18n::{tr, trf, Locale, Strings};
use crate::render::inline_image::{ImageCache, ImageRow, ImageRowView};
use crate::render::sink::{
    append_lines, code_block_lines, push_line, render_markdown, LookView, RenderContext, Rendered,
    RenderedView,
};
use crate::render::style::{Line, LineView, Modifier, Style};
use crate::store::event_data::{ContentBlock, ContentBlockView};
use crate::store::node::{
    AssistantBlock, AssistantBlockView, ChatNode, ChatNodeView, NodeData, NodeDataView,
    RunningToolCall, RunningToolCallView, ToolResultNode, ToolResultNodeView,
};
use crate::text::{joined, same, u64_text};

use image::DynamicImage;

verus! {

/// A rendered node: its lines, the places of its inline images, the ranges of lines that are
/// code, and the line of the header of its skill list.
#[derive(Debug)]
pub struct NodeRender {
    pub lines: Vec<Line>,
    pub images: Vec<ImageRow>,
    pub code_ranges: Vec<(usize, usize)>,
    pub skill_header: Option<usize>,
}

/// What a [`NodeRender`] stands for.
#[verifier::ext_equal]
pub struct NodeRenderView {
    pub text: RenderedView,
    pub images: Seq<ImageRowView>,
}

impl View for NodeRender {
    type V = NodeRenderView;

    open spec fn view(&self) -> NodeRenderView {
        NodeRenderView {
            text: RenderedView {
                lines: crate::text::views(self.lines@),
                code_ranges: crate::render::wrap::nat_pairs(self.code_ranges@),
                skill_header: crate::render::sink::opt_nat(self.skill_header),
            },
            images: crate::text::views(self.images@),
        }
    }
}

/// What a node depends on beside its own data.
pub struct SceneView {
    pub look: LookView,
    pub images: Map<Seq<char>, DynamicImage>,
    pub width: u16,
}

impl<'a> RenderContext<'a> {
    /// What a node depends on beside its own data.
    pub open spec fn scene(self) -> SceneView {
        SceneView { look: self.look(), images: self.images@, width: self.width }
    }
}

/// Nothing rendered.
pub open spec fn nothing() -> RenderedView {
    RenderedView { lines: Seq::empty(), code_ranges: Seq::empty(), skill_header: None }
}

/// Only lines.
pub open spec fn only(lines: Seq<LineView>) -> RenderedView {
    RenderedView { lines, code_ranges: Seq::empty(), skill_header: None }
}

/// Line ranges moved down by `n` lines.
pub open spec fn moved(ranges: Seq<(nat, nat)>, n: nat) -> Seq<(nat, nat)> {
    ranges.map_values(|r: (nat, nat)| (r.0 + n, r.1 + n))
}

/// The places of inline images moved down by `n` lines.
pub open spec fn lowered(images: Seq<ImageRowView>, n: nat) -> Seq<ImageRowView> {
    images.map_values(
        |i: ImageRowView| ImageRowView { line_index: i.line_index + n, ..i },
    )
}

/// One rendered text below another. The first skill list keeps its header.
pub open spec fn stacked(a: RenderedView, b: RenderedView) -> RenderedView {
    RenderedView {
        lines: a.lines + b.lines,
        code_ranges: a.code_ranges + moved(b.code_ranges, a.lines.len()),
        skill_header: match a.skill_header {
            Some(h) => Some(h),
            None => match b.skill_header {
                Some(h) => Some(h + a.lines.len()),
                None => None,
            },
        },
    }
}

impl LookView {
    /// The text of a key.
    pub open spec fn tr(self, key: Seq<char>) -> Seq<char> {
        crate::i18n::text_of(self.strings, self.locale, key)
    }

    /// The text of a key with one argument.
    pub open spec fn trf(self, key: Seq<char>, arg: Seq<char>) -> Seq<char> {
        crate::i18n::text_with(self.strings, self.locale, key, seq![arg])
    }
}

/// The style of reasoning.
pub open spec fn reasoning_style(look: LookView) -> Style {
    crate::render::style::fg(look.theme.muted).with(Modifier::Dim)
}

/// The line of a tool call.
pub open spec fn tool_line(look: LookView, name: Seq<char>) -> LineView {
    crate::render::style::styled_line(
        look.tr("marker.tool"@) + " "@ + name,
        crate::render::style::fg(look.theme.text),
    )
}

/// An assistant block.
pub open spec fn assistant_block(block: AssistantBlockView, look: LookView, folded: bool) -> RenderedView {
    match block {
        AssistantBlockView::Text { text } => crate::render::sink::rendered_markdown(
            text,
            crate::render::style::fg(look.theme.text),
            look,
            folded,
        ),
        AssistantBlockView::Reasoning { text } => crate::render::sink::rendered_markdown(
            text,
            reasoning_style(look),
            look,
            folded,
        ),
        AssistantBlockView::ToolCall { name, .. } => only(seq![tool_line(look, name)]),
    }
}

/// Some assistant blocks, one below the other.
pub open spec fn assistant_blocks(blocks: Seq<AssistantBlockView>, look: LookView, folded: bool) -> RenderedView
    decreases blocks.len(),
{
    if blocks.len() == 0 {
        nothing()
    } else {
        stacked(
            assistant_blocks(blocks.drop_last(), look, folded),
            assistant_block(blocks.last(), look, folded),
        )
    }
}

/// Empty lines.
pub open spec fn fillers(n: nat) -> Seq<LineView> {
    Seq::new(n, |i: int| crate::render::style::empty_line())
}

/// The caption of an image.
pub open spec fn caption(look: LookView, name: Option<Seq<char>>) -> LineView {
    crate::render::style::styled_line(
        look.trf(
            "marker.image"@,
            match name {
                Some(name) => name,
                None => look.tr("marker.image_default"@),
            },
        ),
        crate::render::style::fg(look.theme.muted),
    )
}

/// A content block. An image whose bytes are at hand gets empty lines below its caption.
pub open spec fn content_block(
    block: ContentBlockView,
    style: Style,
    scene: SceneView,
    folded: bool,
) -> RenderedView {
    let look = scene.look;
    match block {
        ContentBlockView::Text { text } => crate::render::sink::rendered_markdown(
            text,
            style,
            look,
            folded,
        ),
        ContentBlockView::Reasoning { text } => crate::render::sink::rendered_markdown(
            text,
            reasoning_style(look),
            look,
            folded,
        ),
        ContentBlockView::Image { attachment } => only(
            seq![caption(look, attachment.name)] + (if scene.images.dom().contains(
                attachment.attachment_id,
            ) {
                fillers(
                    crate::render::inline_image::rows_at(
                        scene.images[attachment.attachment_id],
                        scene.width,
                    ) as nat,
                )
            } else {
                Seq::empty()
            }),
        ),
        ContentBlockView::ToolCall { name, .. } => only(seq![tool_line(look, name)]),
        ContentBlockView::ToolResult { is_error, .. } => only(
            seq![
                crate::render::style::styled_line(
                    look.tr("marker.tool_result"@) + (if is_error == Some(true) {
                        look.tr("marker.failed_suffix"@)
                    } else {
                        ""@
                    }),
                    crate::render::style::fg(look.theme.muted),
                ),
            ],
        ),
        ContentBlockView::Raw(value) => only(
            seq![
                crate::render::style::styled_line(
                    look.trf(
                        "marker.block"@,
                        match value.get_str("type"@) {
                            Some(kind) => kind,
                            None => "?"@,
                        },
                    ),
                    crate::render::style::fg(look.theme.muted),
                ),
            ],
        ),
    }
}

/// Some content blocks, one below the other.
pub open spec fn content_blocks(
    blocks: Seq<ContentBlockView>,
    style: Style,
    scene: SceneView,
    folded: bool,
) -> RenderedView
    decreases blocks.len(),
{
    if blocks.len() == 0 {
        nothing()
    } else {
        stacked(
            content_blocks(blocks.drop_last(), style, scene, folded),
            content_block(blocks.last(), style, scene, folded),
        )
    }
}

/// The rows of the inline image of a content block: those of an image whose bytes are at hand.
pub open spec fn image_rows(block: ContentBlockView, scene: SceneView) -> Option<u16> {
    match block {
        ContentBlockView::Image { attachment } => if scene.images.dom().contains(
            attachment.attachment_id,
        ) {
            Some(
                crate::render::inline_image::rows_at(
                    scene.images[attachment.attachment_id],
                    scene.width,
                ),
            )
        } else {
            None
        },
        _ => None,
    }
}

/// The attachment of a content block.
pub open spec fn attachment_id(block: ContentBlockView) -> Seq<char> {
    match block {
        ContentBlockView::Image { attachment } => attachment.attachment_id,
        _ => Seq::empty(),
    }
}

/// The places of inline images with that of one more block, which starts at line `base`.
pub open spec fn with_image(
    images: Seq<ImageRowView>,
    base: nat,
    block: ContentBlockView,
    scene: SceneView,
) -> Seq<ImageRowView> {
    match image_rows(block, scene) {
        Some(rows) => images.push(
            ImageRowView { line_index: base + 1, attachment_id: attachment_id(block), rows },
        ),
        None => images,
    }
}

/// The places of the inline images of some content blocks.
pub open spec fn block_images(
    blocks: Seq<ContentBlockView>,
    style: Style,
    scene: SceneView,
    folded: bool,
) -> Seq<ImageRowView>
    decreases blocks.len(),
{
    if blocks.len() == 0 {
        Seq::empty()
    } else {
        let front = blocks.drop_last();
        with_image(
            block_images(front, style, scene, folded),
            content_blocks(front, style, scene, folded).lines.len(),
            blocks.last(),
            scene,
        )
    }
}

/// The language that the output of a tool is written in.
pub open spec fn language_of(tool: Seq<char>) -> Option<Seq<char>> {
    if tool == "bash"@ || tool == "sh"@ || tool == "shell"@ {
        Some("bash"@)
    } else {
        None
    }
}

/// The name of a tool node: that of its call, else of the call that its result knows of.
pub open spec fn tool_name(
    call: Option<RunningToolCallView>,
    result: Option<ToolResultNodeView>,
) -> Seq<char> {
    match call {
        Some(call) => call.name,
        None => match result {
            Some(result) => match result.call {
                Some(call) => call.name,
                None => "tool"@,
            },
            None => "tool"@,
        },
    }
}

/// Whether content is text and nothing else.
pub open spec fn all_text(content: Seq<ContentBlockView>) -> bool {
    content.len() > 0 && forall|i: int| 0 <= i < content.len() ==> (#[trigger] content[i]) is Text
}

/// The texts of some blocks, a line feed between them where there is something before.
pub open spec fn joined_text(content: Seq<ContentBlockView>) -> Seq<char>
    decreases content.len(),
{
    if content.len() == 0 {
        Seq::empty()
    } else {
        let before = joined_text(content.drop_last());
        match content.last() {
            ContentBlockView::Text { text } => if before.len() == 0 {
                text
            } else {
                before.push('\n') + text
            },
            _ => before,
        }
    }
}

/// The output of a tool, literally: its lines as code, with an empty line behind them.
pub open spec fn output_block(look: LookView, text: Seq<char>, language: Option<Seq<char>>) -> RenderedView {
    let lines = crate::render::sink::code_lines(look, text, language);
    if lines.len() == 0 {
        nothing()
    } else {
        RenderedView {
            lines: lines.push(crate::render::style::empty_line()),
            code_ranges: seq![(0nat, lines.len())],
            skill_header: None,
        }
    }
}

/// The content of a tool's result.
pub open spec fn result_content(
    content: Seq<ContentBlockView>,
    name: Seq<char>,
    scene: SceneView,
    folded: bool,
) -> RenderedView {
    if all_text(content) {
        output_block(scene.look, joined_text(content), language_of(name))
    } else {
        content_blocks(content, crate::render::style::fg(scene.look.theme.text), scene, folded)
    }
}

/// The line below a result that failed.
pub open spec fn failure_line(look: LookView, result: ToolResultNodeView) -> LineView {
    crate::render::style::styled_line(
        look.trf(
            "marker.tool_result_failed"@,
            match result.error {
                Some(e) => e.code,
                None => "failed"@,
            },
        ),
        crate::render::style::fg(look.theme.error),
    )
}

/// A collapsed tool node.
pub open spec fn collapsed_tool(look: LookView, name: Seq<char>, failed: bool) -> LineView {
    crate::render::style::styled_line(
        look.tr("marker.tool"@) + " "@ + name + (if failed {
            look.tr("marker.failed_suffix"@)
        } else {
            ""@
        }),
        crate::render::style::fg(
            if failed {
                look.theme.error
            } else {
                look.theme.text
            },
        ),
    )
}

/// A tool node.
pub open spec fn tool_node(
    call: Option<RunningToolCallView>,
    result: Option<ToolResultNodeView>,
    collapsed: bool,
    scene: SceneView,
    folded: bool,
) -> NodeRenderView {
    let name = tool_name(call, result);
    let look = scene.look;
    if collapsed {
        NodeRenderView {
            text: only(
                seq![
                    collapsed_tool(
                        look,
                        name,
                        result matches Some(r) && r.is_error,
                    ),
                ],
            ),
            images: Seq::empty(),
        }
    } else {
        let head = only(seq![tool_line(look, name)]);
        match result {
            Some(result) => {
                let body = stacked(head, result_content(result.content, name, scene, folded));
                NodeRenderView {
                    text: if result.is_error {
                        stacked(body, only(seq![failure_line(look, result)]))
                    } else {
                        body
                    },
                    images: if all_text(result.content) {
                        Seq::empty()
                    } else {
                        lowered(
                            block_images(
                                result.content,
                                crate::render::style::fg(look.theme.text),
                                scene,
                                folded,
                            ),
                            head.lines.len(),
                        )
                    },
                }
            },
            None => NodeRenderView { text: head, images: Seq::empty() },
        }
    }
}

/// A line that tells of something.
pub open spec fn notice(text: Seq<char>, color: crate::render::style::Color) -> NodeRenderView {
    NodeRenderView {
        text: only(
            seq![crate::render::style::styled_line(text, crate::render::style::fg(color))],
        ),
        images: Seq::empty(),
    }
}

/// The style of what the user wrote.
pub open spec fn user_style(look: LookView) -> Style {
    crate::render::style::fg(look.theme.text).with_bg(
        match look.theme.user_bg {
            Some(c) => c,
            None => crate::render::style::Color::Reset,
        },
    )
}

/// A node's data.
pub open spec fn node_lines(
    data: NodeDataView,
    collapsed: bool,
    scene: SceneView,
    folded: bool,
) -> NodeRenderView {
    let look = scene.look;
    match data {
        NodeDataView::User { content, .. } => NodeRenderView {
            text: content_blocks(content, user_style(look), scene, folded),
            images: block_images(content, user_style(look), scene, folded),
        },
        NodeDataView::Assistant { blocks, interrupted, .. } => {
            let body = assistant_blocks(blocks, look, folded);
            NodeRenderView {
                text: if interrupted {
                    stacked(
                        body,
                        only(
                            seq![
                                crate::render::style::styled_line(
                                    look.tr("marker.interrupted"@),
                                    crate::render::style::fg(look.theme.warning),
                                ),
                            ],
                        ),
                    )
                } else {
                    body
                },
                images: Seq::empty(),
            }
        },
        NodeDataView::Tool { call, result, .. } => tool_node(call, result, collapsed, scene, folded),
        NodeDataView::Compaction { shadowed_item_count, .. } => notice(
            look.trf(
                "marker.compacted"@,
                crate::text::decimal(
                    match shadowed_item_count {
                        Some(n) => n as nat,
                        None => 0,
                    },
                ),
            ),
            look.theme.muted,
        ),
        NodeDataView::TurnError { code, .. } => notice(
            look.trf(
                "marker.turn_error"@,
                match code {
                    Some(code) => code,
                    None => "unknown"@,
                },
            ),
            look.theme.error,
        ),
        NodeDataView::TurnMaxTokens { .. } => notice(
            look.tr("marker.max_tokens"@),
            look.theme.warning,
        ),
        NodeDataView::Unknown { event_type, .. } => notice(
            look.trf("marker.unknown"@, event_type),
            look.theme.muted,
        ),
    }
}

/// A chat node.
pub open spec fn node_render(
    node: ChatNodeView,
    collapsed: bool,
    scene: SceneView,
    folds: Map<Seq<char>, bool>,
) -> NodeRenderView {
    node_lines(
        node.data,
        collapsed,
        scene,
        crate::render::sink::is_folded(folds, node.key),
    )
}

/// Whether inline images lie within the lines, each below a caption.
pub open spec fn images_within(images: Seq<ImageRowView>, lines: nat) -> bool {
    forall|i: int| 0 <= i < images.len() ==> (#[trigger] images[i]).line_index < lines
}

impl NodeRenderView {
    /// Whether what is known by line index lies within the lines.
    pub open spec fn fine(self) -> bool {
        self.text.fine() && images_within(self.images, self.text.lines.len())
    }
}

fn no_lines() -> (r: Rendered)
    ensures
        r@ == nothing(),
{
    let r = Rendered { lines: Vec::new(), code_ranges: Vec::new(), skill_header: None };
    proof {
        assert(r@ =~= nothing());
    }
    r
}

fn one_line(line: Line) -> (r: Rendered)
    ensures
        r@ == only(seq![line@]),
        r@.fine(),
{
    let mut lines: Vec<Line> = Vec::new();
    let ghost view = line@;
    push_line(&mut lines, line);
    let r = Rendered { lines, code_ranges: Vec::new(), skill_header: None };
    proof {
        assert(r@ =~= only(seq![view]));
    }
    r
}

fn stack(top: &mut Rendered, below: Rendered)
    requires
        old(top)@.fine(),
        below@.fine(),
    ensures
        final(top)@ == stacked(old(top)@, below@),
        final(top)@.fine(),
{
    let ghost a = top@;
    let ghost b = below@;
    let base = top.lines.len();
    let mut ranges = below.code_ranges;
    append_lines(&mut top.lines, below.lines);
    let total = top.lines.len();
    proof {
        assert(a.lines.len() == base);
        assert(b.lines.len() == total - base);
        assert(b.code_ranges.take(0) =~= Seq::empty());
        assert(moved(b.code_ranges.take(0), base as nat) =~= Seq::empty());
    }
    let mut i: usize = 0;
    while i < ranges.len()
        invariant
            i <= ranges.len(),
            crate::render::wrap::nat_pairs(ranges@) == b.code_ranges,
            b.fine(),
            base + b.lines.len() == total,
            a.lines.len() == base,
            crate::render::wrap::nat_pairs(top.code_ranges@) =~= a.code_ranges + moved(
                b.code_ranges.take(i as int),
                base as nat,
            ),
            crate::text::views(top.lines@) == a.lines + b.lines,
            crate::render::sink::opt_nat(top.skill_header) == a.skill_header,
        decreases ranges.len() - i,
    {
        let (start, end) = ranges[i];
        proof {
            assert(b.code_ranges[i as int] == (start as nat, end as nat));
            assert(moved(b.code_ranges.take(i + 1), base as nat) =~= moved(
                b.code_ranges.take(i as int),
                base as nat,
            ).push((start as nat + base as nat, end as nat + base as nat)));
        }
        let ghost so_far = top.code_ranges@;
        top.code_ranges.push((start + base, end + base));
        proof {
            assert(crate::render::wrap::nat_pairs(top.code_ranges@)
                =~= crate::render::wrap::nat_pairs(so_far).push(
                (start as nat + base as nat, end as nat + base as nat),
            ));
        }
        i = i + 1;
    }
    proof {
        assert(b.code_ranges.take(i as int) =~= b.code_ranges);
    }
    if top.skill_header.is_none() {
        match below.skill_header {
            Some(h) => {
                top.skill_header = Some(h + base);
            },
            None => {},
        }
    }
    proof {
        assert(top@ =~= stacked(a, b));
        lemma_stacked_fine(a, b);
    }
}

proof fn lemma_stacked_fine(a: RenderedView, b: RenderedView)
    requires
        a.fine(),
        b.fine(),
    ensures
        stacked(a, b).fine(),
{
    let s = stacked(a, b);
    assert forall|i: int| 0 <= i < s.code_ranges.len() implies (#[trigger] s.code_ranges[i]).0
        <= s.code_ranges[i].1 && s.code_ranges[i].1 <= s.lines.len() by {
        if i < a.code_ranges.len() {
            assert(s.code_ranges[i] == a.code_ranges[i]);
        } else {
            assert(b.code_ranges[i - a.code_ranges.len()].1 <= b.lines.len());
        }
    }
}

/// Move the places of inline images down by `n` lines.
fn lower(images: &mut Vec<ImageRow>, n: usize, total: usize)
    requires
        images_within(crate::text::views(old(images)@), total as nat),
        total + n <= usize::MAX,
    ensures
        crate::text::views(final(images)@) == lowered(crate::text::views(old(images)@), n as nat),
        images_within(crate::text::views(final(images)@), (total + n) as nat),
{
    let ghost before = crate::text::views(images@);
    let mut i: usize = 0;
    while i < images.len()
        invariant
            i <= images.len(),
            images.len() == before.len(),
            images_within(before, total as nat),
            total + n <= usize::MAX,
            forall|k: int|
                0 <= k < i ==> (#[trigger] images@[k])@ == lowered(before, n as nat)[k],
            forall|k: int| i <= k < images.len() ==> (#[trigger] images@[k])@ == before[k],
        decreases images.len() - i,
    {
        proof {
            assert(images@[i as int]@ == before[i as int]);
            assert(before[i as int].line_index < total);
        }
        let row = ImageRow {
            line_index: images[i].line_index + n,
            attachment_id: images[i].attachment_id.clone(),
            rows: images[i].rows,
        };
        images.set(i, row);
        i = i + 1;
    }
    proof {
        assert(crate::text::views(images@) =~= lowered(before, n as nat));
    }
}

/// The text of a key with one argument.
fn trf_one(strings: &Strings, locale: Locale, key: &str, arg: &str) -> (r: String)
    ensures
        r@ == crate::i18n::text_with(strings@, locale, key@, seq![arg@]),
{
    let args: [&str; 1] = [arg];
    proof {
        assert(crate::i18n::arg_texts(args@) =~= seq![arg@]);
    }
    trf(strings, locale, key, &args)
}

/// The language that the output of a tool is written in.
pub fn tool_language(name: &str) -> (r: Option<&'static str>)
    ensures
        crate::text::opt_view(r) == language_of(name@),
{
    if same(name, "bash") || same(name, "sh") || same(name, "shell") {
        Some("bash")
    } else {
        None
    }
}

fn tool_call_line(name: &str, ctx: &RenderContext<'_>) -> (r: Line)
    ensures
        r@ == tool_line(ctx.look(), name@),
{
    let mut text = joined(tr(ctx.strings, ctx.locale, "marker.tool"), " ");
    text.append(name);
    Line::styled(text.as_str(), Style::new().fg(ctx.theme.text))
}

fn render_assistant_block(block: &AssistantBlock, ctx: &RenderContext<'_>, folded: bool) -> (r: Rendered)
    ensures
        r@ == assistant_block(block@, ctx.look(), folded),
        r@.fine(),
{
    match block {
        AssistantBlock::Text { text } => render_markdown(
            text.as_str(),
            Style::new().fg(ctx.theme.text),
            ctx,
            folded,
        ),
        AssistantBlock::Reasoning { text } => render_markdown(
            text.as_str(),
            Style::new().fg(ctx.theme.muted).add_modifier(Modifier::Dim),
            ctx,
            folded,
        ),
        AssistantBlock::ToolCall { name, .. } => one_line(tool_call_line(name.as_str(), ctx)),
    }
}

fn image_block(name: Option<&str>, id: &str, ctx: &RenderContext<'_>) -> (r: (
    Rendered,
    Option<u16>,
))
    ensures
        r.0@ == only(
            seq![caption(ctx.look(), crate::text::opt_view(name))] + (if ctx.images@.dom().contains(
                id@,
            ) {
                fillers(
                    crate::render::inline_image::rows_at(ctx.images@[id@], ctx.width) as nat,
                )
            } else {
                Seq::empty()
            }),
        ),
        r.0@.fine(),
        r.1 == (if ctx.images@.dom().contains(id@) {
            Some(crate::render::inline_image::rows_at(ctx.images@[id@], ctx.width))
        } else {
            None
        }),
        r.1 is Some ==> r.0@.lines.len() >= 2,
{
    let label = match name {
        Some(name) => name,
        None => tr(ctx.strings, ctx.locale, "marker.image_default"),
    };
    let text = trf_one(ctx.strings, ctx.locale, "marker.image", label);
    let mut out = one_line(Line::styled(text.as_str(), Style::new().fg(ctx.theme.muted)));
    match ctx.images.get(id) {
        Some(loaded) => {
            let rows = ImageCache::inline_rows(&loaded.source, ctx.width);
            let ghost first = out@.lines;
            let mut i: u16 = 0;
            while i < rows
                invariant
                    i <= rows,
                    out@.lines =~= first + fillers(i as nat),
                    out@.code_ranges.len() == 0,
                    out@.skill_header is None,
                decreases rows - i,
            {
                push_line(&mut out.lines, Line::empty());
                i = i + 1;
            }
            proof {
                assert(out@ =~= only(first + fillers(rows as nat)));
            }
            (out, Some(rows))
        },
        None => {
            proof {
                assert(out@.lines + Seq::empty() =~= out@.lines);
            }
            (out, None)
        },
    }
}

fn render_content_block(
    block: &ContentBlock,
    style: Style,
    ctx: &RenderContext<'_>,
    folded: bool,
) -> (r: (Rendered, Option<u16>))
    ensures
        r.0@ == content_block(block@, style, ctx.scene(), folded),
        r.0@.fine(),
        r.1 == image_rows(block@, ctx.scene()),
        r.1 is Some ==> r.0@.lines.len() >= 2,
{
    match block {
        ContentBlock::Text { text } => (render_markdown(text.as_str(), style, ctx, folded), None),
        ContentBlock::Reasoning { text } => (
            render_markdown(
                text.as_str(),
                Style::new().fg(ctx.theme.muted).add_modifier(Modifier::Dim),
                ctx,
                folded,
            ),
            None,
        ),
        ContentBlock::Image { attachment } => {
            let name = match &attachment.name {
                Some(name) => Some(name.as_str()),
                None => None,
            };
            image_block(name, attachment.attachment_id.as_str(), ctx)
        },
        ContentBlock::ToolCall { name, .. } => (one_line(tool_call_line(name.as_str(), ctx)), None),
        ContentBlock::ToolResult { is_error, .. } => {
            let suffix = match is_error {
                Some(true) => tr(ctx.strings, ctx.locale, "marker.failed_suffix"),
                _ => "",
            };
            let text = joined(tr(ctx.strings, ctx.locale, "marker.tool_result"), suffix);
            (one_line(Line::styled(text.as_str(), Style::new().fg(ctx.theme.muted))), None)
        },
        ContentBlock::Raw(value) => {
            let kind = match value.get_str("type") {
                Some(kind) => kind,
                None => "?",
            };
            let text = trf_one(ctx.strings, ctx.locale, "marker.block", kind);
            (one_line(Line::styled(text.as_str(), Style::new().fg(ctx.theme.muted))), None)
        },
    }
}

fn attachment_of(block: &ContentBlock) -> (r: String)
    ensures
        r@ == attachment_id(block@),
{
    match block {
        ContentBlock::Image { attachment } => attachment.attachment_id.clone(),
        _ => {
            let none = String::new();
            proof {
                assert(none@ =~= Seq::empty());
            }
            none
        },
    }
}

fn add_block(
    out: &mut Rendered,
    images: &mut Vec<ImageRow>,
    block: &ContentBlock,
    text_style: Style,
    ctx: &RenderContext<'_>,
    folded: bool,
)
    requires
        old(out)@.fine(),
        images_within(crate::text::views(old(images)@), old(out)@.lines.len()),
    ensures
        final(out)@ == stacked(
            old(out)@,
            content_block(block@, text_style, ctx.scene(), folded),
        ),
        final(out)@.fine(),
        crate::text::views(final(images)@) == with_image(
            crate::text::views(old(images)@),
            old(out)@.lines.len(),
            block@,
            ctx.scene(),
        ),
        images_within(crate::text::views(final(images)@), final(out)@.lines.len()),
{
    let base = out.lines.len();
    let (more, rows) = render_content_block(block, text_style, ctx, folded);
    let ghost before = crate::text::views(images@);
    let ghost lines = out@.lines.len();
    proof {
        assert(lines == base);
    }
    stack(out, more);
    let total = out.lines.len();
    proof {
        assert(out@.lines.len() == total);
        assert(images_within(before, total as nat));
    }
    match rows {
        Some(rows) => {
            let row = ImageRow {
                line_index: base + 1,
                attachment_id: attachment_of(block),
                rows,
            };
            proof {
                assert(crate::text::views(images@.push(row)) =~= before.push(row@));
            }
            images.push(row);
        },
        None => {},
    }
}

fn render_content_blocks(
    content: &Vec<ContentBlock>,
    text_style: Style,
    ctx: &RenderContext<'_>,
    folded: bool,
) -> (r: (Rendered, Vec<ImageRow>))
    ensures
        r.0@ == content_blocks(crate::text::views(content@), text_style, ctx.scene(), folded),
        r.0@.fine(),
        crate::text::views(r.1@) == block_images(
            crate::text::views(content@),
            text_style,
            ctx.scene(),
            folded,
        ),
        images_within(crate::text::views(r.1@), r.0@.lines.len()),
{
    let ghost all = crate::text::views(content@);
    let ghost scene = ctx.scene();
    let mut out = no_lines();
    let mut images: Vec<ImageRow> = Vec::new();
    proof {
        assert(all.take(0) =~= Seq::empty());
        assert(crate::text::views(images@) =~= Seq::empty());
    }
    let mut i: usize = 0;
    while i < content.len()
        invariant
            i <= content.len(),
            all == crate::text::views(content@),
            scene == ctx.scene(),
            out@ == content_blocks(all.take(i as int), text_style, scene, folded),
            out@.fine(),
            crate::text::views(images@) == block_images(
                all.take(i as int),
                text_style,
                scene,
                folded,
            ),
            images_within(crate::text::views(images@), out@.lines.len()),
        decreases content.len() - i,
    {
        proof {
            assert(all.take(i + 1).drop_last() =~= all.take(i as int));
            assert(all.take(i + 1).last() == content@[i as int]@);
        }
        add_block(&mut out, &mut images, &content[i], text_style, ctx, folded);
        i = i + 1;
    }
    proof {
        assert(all.take(i as int) =~= all);
    }
    (out, images)
}

fn is_all_text(content: &Vec<ContentBlock>) -> (r: bool)
    ensures
        r == all_text(crate::text::views(content@)),
{
    let ghost all = crate::text::views(content@);
    let mut i: usize = 0;
    while i < content.len()
        invariant
            i <= content.len(),
            all == crate::text::views(content@),
            forall|k: int| 0 <= k < i ==> (#[trigger] all[k]) is Text,
        decreases content.len() - i,
    {
        proof {
            assert(all[i as int] == content@[i as int]@);
        }
        match &content[i] {
            ContentBlock::Text { .. } => {},
            _ => return false,
        }
        i = i + 1;
    }
    content.len() > 0
}

fn join_text(content: &Vec<ContentBlock>) -> (r: String)
    ensures
        r@ == joined_text(crate::text::views(content@)),
{
    let ghost all = crate::text::views(content@);
    let mut out = String::new();
    proof {
        assert(all.take(0) =~= Seq::empty());
        assert(out@ =~= Seq::empty());
    }
    let mut i: usize = 0;
    while i < content.len()
        invariant
            i <= content.len(),
            all == crate::text::views(content@),
            out@ == joined_text(all.take(i as int)),
        decreases content.len() - i,
    {
        proof {
            assert(all.take(i + 1).drop_last() =~= all.take(i as int));
            assert(all.take(i + 1).last() == content@[i as int]@);
        }
        match &content[i] {
            ContentBlock::Text { text } => {
                if !out.as_str().is_empty() {
                    out.push('\n');
                } else {
                    proof {
                        assert(out@ + text@ =~= text@);
                    }
                }
                out.append(text.as_str());
            },
            _ => {},
        }
        i = i + 1;
    }
    proof {
        assert(all.take(i as int) =~= all);
    }
    out
}

fn render_output(text: &str, language: Option<&str>, ctx: &RenderContext<'_>) -> (r: Rendered)
    ensures
        r@ == output_block(ctx.look(), text@, crate::text::opt_view(language)),
        r@.fine(),
{
    let mut lines = code_block_lines(ctx.grammars, text, language, ctx.theme);
    let ghost views = crate::render::sink::code_lines(
        ctx.look(),
        text@,
        crate::text::opt_view(language),
    );
    proof {
        assert(crate::text::views(lines@) == views);
        assert(views.len() == lines@.len());
    }
    let n = lines.len();
    if n == 0 {
        return no_lines();
    }
    push_line(&mut lines, Line::empty());
    let mut code_ranges: Vec<(usize, usize)> = Vec::new();
    code_ranges.push((0, n));
    let r = Rendered { lines, code_ranges, skill_header: None };
    proof {
        assert(r@.code_ranges =~= seq![(0nat, n as nat)]);
    }
    r
}

fn render_tool_node(
    call: Option<&RunningToolCall>,
    result: Option<&ToolResultNode>,
    collapsed: bool,
    ctx: &RenderContext<'_>,
    folded: bool,
) -> (r: (Rendered, Vec<ImageRow>))
    ensures
        ({
            let node = tool_node(
                match call {
                    Some(c) => Some(c@),
                    None => None,
                },
                match result {
                    Some(t) => Some(t@),
                    None => None,
                },
                collapsed,
                ctx.scene(),
                folded,
            );
            &&& r.0@ == node.text
            &&& crate::text::views(r.1@) == node.images
            &&& node.fine()
        }),
{
    let name = match call {
        Some(c) => c.name.as_str(),
        None => match result {
            Some(t) => match &t.call {
                Some(c) => c.name.as_str(),
                None => "tool",
            },
            None => "tool",
        },
    };
    let no_images: Vec<ImageRow> = Vec::new();
    proof {
        assert(crate::text::views(no_images@) =~= Seq::empty());
    }
    if collapsed {
        let failed = match result {
            Some(t) => t.is_error,
            None => false,
        };
        let mut text = joined(tr(ctx.strings, ctx.locale, "marker.tool"), " ");
        text.append(name);
        text.append(
            if failed {
                tr(ctx.strings, ctx.locale, "marker.failed_suffix")
            } else {
                ""
            },
        );
        let style = if failed {
            Style::new().fg(ctx.theme.error)
        } else {
            Style::new().fg(ctx.theme.text)
        };
        return (one_line(Line::styled(text.as_str(), style)), no_images);
    }
    let mut out = one_line(tool_call_line(name, ctx));
    match result {
        Some(t) => {
            let mut images = no_images;
            if is_all_text(&t.content) {
                let text = join_text(&t.content);
                stack(&mut out, render_output(text.as_str(), tool_language(name), ctx));
            } else {
                let (body, mut found) = render_content_blocks(
                    &t.content,
                    Style::new().fg(ctx.theme.text),
                    ctx,
                    folded,
                );
                let head = out.lines.len();
                let below = body.lines.len();
                proof {
                    assert(out@.lines.len() == head);
                    assert(body@.lines.len() == below);
                }
                stack(&mut out, body);
                let total = out.lines.len();
                proof {
                    assert(out@.lines.len() == total);
                }
                lower(&mut found, head, below);
                images = found;
            }
            if t.is_error {
                let code = match &t.error {
                    Some(e) => e.code.as_str(),
                    None => "failed",
                };
                let text = trf_one(ctx.strings, ctx.locale, "marker.tool_result_failed", code);
                stack(
                    &mut out,
                    one_line(Line::styled(text.as_str(), Style::new().fg(ctx.theme.error))),
                );
            }
            (out, images)
        },
        None => (out, no_images),
    }
}

fn notice_line(text: &str, color: crate::render::style::Color) -> (r: (Rendered, Vec<ImageRow>))
    ensures
        r.0@ == notice(text@, color).text,
        crate::text::views(r.1@) == notice(text@, color).images,
        notice(text@, color).fine(),
{
    let no_images: Vec<ImageRow> = Vec::new();
    proof {
        assert(crate::text::views(no_images@) =~= Seq::empty());
    }
    (one_line(Line::styled(text, Style::new().fg(color))), no_images)
}

fn render_assistant(
    blocks: &Vec<AssistantBlock>,
    interrupted: bool,
    ctx: &RenderContext<'_>,
    folded: bool,
) -> (r: Rendered)
    ensures
        ({
            let body = assistant_blocks(crate::text::views(blocks@), ctx.look(), folded);
            r@ == (if interrupted {
                stacked(
                    body,
                    only(
                        seq![
                            crate::render::style::styled_line(
                                ctx.look().tr("marker.interrupted"@),
                                crate::render::style::fg(ctx.theme.warning),
                            ),
                        ],
                    ),
                )
            } else {
                body
            })
        }),
        r@.fine(),
{
    let ghost all = crate::text::views(blocks@);
    let mut out = no_lines();
    proof {
        assert(all.take(0) =~= Seq::empty());
    }
    let mut i: usize = 0;
    while i < blocks.len()
        invariant
            i <= blocks.len(),
            all == crate::text::views(blocks@),
            out@ == assistant_blocks(all.take(i as int), ctx.look(), folded),
            out@.fine(),
        decreases blocks.len() - i,
    {
        proof {
            assert(all.take(i + 1).drop_last() =~= all.take(i as int));
            assert(all.take(i + 1).last() == blocks@[i as int]@);
        }
        stack(&mut out, render_assistant_block(&blocks[i], ctx, folded));
        i = i + 1;
    }
    proof {
        assert(all.take(i as int) =~= all);
    }
    if interrupted {
        let text = tr(ctx.strings, ctx.locale, "marker.interrupted");
        stack(&mut out, one_line(Line::styled(text, Style::new().fg(ctx.theme.warning))));
    }
    out
}

fn render_data(data: &NodeData, collapsed: bool, ctx: &RenderContext<'_>, folded: bool) -> (r: (
    Rendered,
    Vec<ImageRow>,
))
    ensures
        ({
            let node = node_lines(data@, collapsed, ctx.scene(), folded);
            &&& r.0@ == node.text
            &&& crate::text::views(r.1@) == node.images
            &&& node.fine()
        }),
{
    match data {
        NodeData::User { content, .. } => {
            let tint = match ctx.theme.user_bg {
                Some(c) => c,
                None => crate::render::style::Color::Reset,
            };
            render_content_blocks(
                content,
                Style::new().fg(ctx.theme.text).bg(tint),
                ctx,
                folded,
            )
        },
        NodeData::Assistant { blocks, interrupted, .. } => {
            let no_images: Vec<ImageRow> = Vec::new();
            proof {
                assert(crate::text::views(no_images@) =~= Seq::empty());
            }
            (render_assistant(blocks, *interrupted, ctx, folded), no_images)
        },
        NodeData::Tool { call, result, .. } => render_tool_node(
            call.as_ref(),
            result.as_ref(),
            collapsed,
            ctx,
            folded,
        ),
        NodeData::Compaction { shadowed_item_count, .. } => {
            let count = match shadowed_item_count {
                Some(n) => *n as u64,
                None => 0,
            };
            let text = trf_one(
                ctx.strings,
                ctx.locale,
                "marker.compacted",
                u64_text(count).as_str(),
            );
            notice_line(text.as_str(), ctx.theme.muted)
        },
        NodeData::TurnError { code, .. } => {
            let code = match code {
                Some(code) => code.as_str(),
                None => "unknown",
            };
            let text = trf_one(ctx.strings, ctx.locale, "marker.turn_error", code);
            notice_line(text.as_str(), ctx.theme.error)
        },
        NodeData::TurnMaxTokens { .. } => notice_line(
            tr(ctx.strings, ctx.locale, "marker.max_tokens"),
            ctx.theme.warning,
        ),
        NodeData::Unknown { event_type, .. } => {
            let text = trf_one(ctx.strings, ctx.locale, "marker.unknown", event_type.as_str());
            notice_line(text.as_str(), ctx.theme.muted)
        },
    }
}

/// Render a chat node. A collapsed tool node is one line; an image whose bytes are at hand gets
/// empty lines below its caption, which it is drawn over.
pub fn render_node_full(node: &ChatNode, collapsed: bool, ctx: &RenderContext<'_>) -> (r: NodeRender)
    ensures
        r@ == node_render(node@, collapsed, ctx.scene(), ctx.skill_folds@),
        r@.fine(),
{
    let folded = ctx.skill_fold(node.key.as_str());
    let (text, images) = render_data(&node.data, collapsed, ctx, folded);
    NodeRender {
        lines: text.lines,
        images,
        code_ranges: text.code_ranges,
        skill_header: text.skill_header,
    }
}

/// The lines of a chat node.
pub fn render_node(node: &ChatNode, collapsed: bool, ctx: &RenderContext<'_>) -> (r: Vec<Line>)
    ensures
        crate::text::views(r@) == node_render(
            node@,
            collapsed,
            ctx.scene(),
            ctx.skill_folds@,
        ).text.lines,
{
    render_node_full(node, collapsed, ctx).lines
}

/// A collapsed tool node is one line.
pub proof fn law_collapsed_tool_is_one_line(
    call: Option<RunningToolCallView>,
    result: Option<ToolResultNodeView>,
    scene: SceneView,
    folded: bool,
)
    ensures
        tool_node(call, result, true, scene, folded).text.lines.len() == 1,
        tool_node(call, result, true, scene, folded).images.len() == 0,
{
}

/// The output of a tool is literal: where it is text alone, its look depends on the text and
/// not on what markdown would make of it.
pub proof fn law_tool_output_is_literal(
    content: Seq<ContentBlockView>,
    name: Seq<char>,
    scene: SceneView,
    folded: bool,
)
    requires
        all_text(content),
        language_of(name) is None,
    ensures
        ({
            let lines = result_content(content, name, scene, folded).lines;
            let source = crate::text::raw_lines(joined_text(content));
            &&& source.len() > 0 ==> lines.len() == source.len() + 1
            &&& source.len() == 0 ==> lines.len() == 0
            &&& forall|i: int|
                0 <= i < source.len() ==> (#[trigger] lines[i]).text() == source[i]
        }),
{
    let code = crate::render::sink::plain_code(scene.look, joined_text(content));
    let lines = result_content(content, name, scene, folded).lines;
    let source = crate::text::raw_lines(joined_text(content));
    assert forall|i: int| 0 <= i < source.len() implies (#[trigger] lines[i]).text()
        == source[i] by {
        assert(lines[i] == code[i]);
        let spans = code[i].spans;
        assert(spans.drop_last() =~= Seq::empty());
        assert(crate::render::style::spans_text(spans) =~= source[i]) by {
            reveal_with_fuel(crate::render::style::spans_text, 2);
        }
    }
}

/// Whether an inline image has its place: the line above is a caption, and its rows are empty
/// lines.
pub open spec fn placed(image: ImageRowView, lines: Seq<LineView>, look: LookView) -> bool {
    &&& 1 <= image.line_index
    &&& image.line_index + image.rows <= lines.len()
    &&& exists|name: Option<Seq<char>>|
        lines[image.line_index - 1] == #[trigger] caption(look, name)
    &&& forall|k: int|
        image.line_index <= k < image.line_index + image.rows ==> #[trigger] lines[k]
            == crate::render::style::empty_line()
}

/// Whether every inline image has its place.
pub open spec fn all_placed(images: Seq<ImageRowView>, lines: Seq<LineView>, look: LookView) -> bool {
    forall|i: int| 0 <= i < images.len() ==> placed(#[trigger] images[i], lines, look)
}

proof fn lemma_placed_above(
    images: Seq<ImageRowView>,
    lines: Seq<LineView>,
    below: Seq<LineView>,
    look: LookView,
)
    requires
        all_placed(images, lines, look),
    ensures
        all_placed(images, lines + below, look),
{
    let all = lines + below;
    assert forall|i: int| 0 <= i < images.len() implies placed(#[trigger] images[i], all, look) by {
        let image = images[i];
        assert(placed(image, lines, look));
        assert(all[image.line_index - 1] == lines[image.line_index - 1]);
    }
}

proof fn lemma_placed_below(
    images: Seq<ImageRowView>,
    head: Seq<LineView>,
    lines: Seq<LineView>,
    look: LookView,
)
    requires
        all_placed(images, lines, look),
    ensures
        all_placed(lowered(images, head.len()), head + lines, look),
{
    let all = head + lines;
    let moved = lowered(images, head.len());
    assert forall|i: int| 0 <= i < moved.len() implies placed(#[trigger] moved[i], all, look) by {
        let image = images[i];
        assert(placed(image, lines, look));
        assert(all[moved[i].line_index - 1] == lines[image.line_index - 1]);
        assert forall|k: int|
            moved[i].line_index <= k < moved[i].line_index
                + moved[i].rows implies #[trigger] all[k] == crate::render::style::empty_line() by {
            assert(all[k] == lines[k - head.len()]);
        }
    }
}

proof fn lemma_blocks_placed(
    blocks: Seq<ContentBlockView>,
    style: Style,
    scene: SceneView,
    folded: bool,
)
    ensures
        all_placed(
            block_images(blocks, style, scene, folded),
            content_blocks(blocks, style, scene, folded).lines,
            scene.look,
        ),
    decreases blocks.len(),
{
    if blocks.len() > 0 {
        let front = blocks.drop_last();
        let block = blocks.last();
        lemma_blocks_placed(front, style, scene, folded);
        let before = block_images(front, style, scene, folded);
        let head = content_blocks(front, style, scene, folded).lines;
        let more = content_block(block, style, scene, folded).lines;
        lemma_placed_above(before, head, more, scene.look);
        let all = head + more;
        match block {
            ContentBlockView::Image { attachment } => {
                if scene.images.dom().contains(attachment.attachment_id) {
                    let image = block_images(blocks, style, scene, folded).last();
                    assert(all[image.line_index - 1] == more[0]);
                    assert(more[0] == caption(scene.look, attachment.name));
                    assert forall|k: int|
                        image.line_index <= k < image.line_index
                            + image.rows implies #[trigger] all[k]
                        == crate::render::style::empty_line() by {
                        assert(all[k] == more[k - head.len()]);
                    }
                    assert(placed(image, all, scene.look));
                }
            },
            _ => {},
        }
    }
}

/// An inline image lies where it was announced: the line above its place is a caption, and its
/// rows are empty lines. This holds of every node, tool results below their head among them.
pub proof fn law_images_below_captions(
    data: NodeDataView,
    collapsed: bool,
    scene: SceneView,
    folded: bool,
)
    ensures
        ({
            let node = node_lines(data, collapsed, scene, folded);
            all_placed(node.images, node.text.lines, scene.look)
        }),
{
    match data {
        NodeDataView::User { content, .. } => {
            lemma_blocks_placed(content, user_style(scene.look), scene, folded);
        },
        NodeDataView::Tool { call, result, .. } => {
            match result {
                Some(result) => {
                    let style = crate::render::style::fg(scene.look.theme.text);
                    let name = tool_name(call, Some(result));
                    let head = seq![tool_line(scene.look, name)];
                    let body = content_blocks(result.content, style, scene, folded).lines;
                    let images = block_images(result.content, style, scene, folded);
                    lemma_blocks_placed(result.content, style, scene, folded);
                    lemma_placed_below(images, head, body, scene.look);
                    lemma_placed_above(
                        lowered(images, head.len()),
                        head + body,
                        seq![failure_line(scene.look, result)],
                        scene.look,
                    );
                },
                None => {},
            }
        },
        _ => {},
    }
}

} // verus!
