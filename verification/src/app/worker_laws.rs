//! What a run without a screen prints and how it ends, whatever the session says.

use vstd::prelude::*;

use crate::app::light::{LightErrorView, LightRunView, TaskSourceView};
use crate::store::node::{AssistantBlockView, ChatNodeView, NodeDataView};
use crate::wire::HostFrameView;

verus! {

/// What a step prints is the text of its text blocks, one behind the other: the text of two
/// lists of blocks put together is that of the first and then that of the second, and reasoning
/// and tool calls print nothing.
pub proof fn law_step_text(a: Seq<AssistantBlockView>, b: Seq<AssistantBlockView>, block: AssistantBlockView)
    ensures
        crate::app::light::step_text(a + b) == crate::app::light::step_text(a)
            + crate::app::light::step_text(b),
        crate::app::light::step_text(seq![block]) == (if block is Text {
            block->Text_text
        } else {
            Seq::empty()
        }),
    decreases b.len(),
{
    reveal_with_fuel(crate::app::light::step_text, 2);
    assert(seq![block].drop_last() =~= Seq::empty());
    if block is Text {
        assert(Seq::<char>::empty() + block->Text_text =~= block->Text_text);
    } else {
        assert(Seq::<char>::empty() + Seq::<char>::empty() =~= Seq::empty());
    }
    if b.len() == 0 {
        assert(a + b =~= a);
        assert(crate::app::light::step_text(a) + Seq::<char>::empty()
            =~= crate::app::light::step_text(a));
    } else {
        law_step_text(a, b.drop_last(), block);
        assert((a + b).drop_last() =~= a + b.drop_last());
        assert((a + b).last() == b.last());
        let last = if b.last() is Text {
            b.last()->Text_text
        } else {
            Seq::empty()
        };
        assert(crate::app::light::step_text(a) + crate::app::light::step_text(b.drop_last()) + last
            =~= crate::app::light::step_text(a) + (crate::app::light::step_text(b.drop_last())
            + last));
    }
}

/// A step is printed once it is settled or interrupted, behind the steps before it, and its text
/// ends with a line feed; a step that is still under way, one that was printed, and any other
/// node print nothing.
pub proof fn law_step_printed(nodes: Seq<ChatNodeView>, node: ChatNodeView, before: Seq<Seq<char>>)
    ensures
        ({
            let (keys, out) = crate::app::light::printed_of(nodes, before);
            let (more, all) = crate::app::light::printed_of(nodes.push(node), before);
            let over = node.data is Assistant && (node.data->finalized
                || node.data->Assistant_interrupted);
            let text = crate::app::light::step_text(node.data->Assistant_blocks);
            &&& !over || keys.contains(node.key) ==> all == out && more == keys
            &&& over && !keys.contains(node.key) ==> {
                &&& more == keys.push(node.key)
                &&& text.len() == 0 ==> all == out
                &&& text.len() > 0 ==> {
                    &&& all.len() == out.len() + 1
                    &&& all.drop_last() == out
                    &&& all.last() == text && text.last() == '\n' || all.last() == text.push('\n')
                    &&& all.last().last() == '\n'
                }
            }
        }),
{
    assert(nodes.push(node).drop_last() =~= nodes);
    let (keys, out) = crate::app::light::printed_of(nodes, before);
    let (more, all) = crate::app::light::printed_of(nodes.push(node), before);
    let over = node.data is Assistant && (node.data->finalized
        || node.data->Assistant_interrupted);
    if over && !keys.contains(node.key) {
        let text = crate::app::light::step_text(node.data->Assistant_blocks);
        if text.len() == 0 {
            assert(all =~= out);
        } else {
            assert(all.drop_last() =~= out);
        }
    }
}

/// A run is over only when the host says that the session does not run, and it fails where its
/// last node says that the turn failed, with the words of that failure.
pub proof fn law_run_over(run: LightRunView)
    requires
        run.store.last_stream_error is None,
    ensures
        run.running ==> run.ending() is None,
        run.ending() matches Some(end) ==> {
            let nodes = run.store.sessions[run.session_id].nodes;
            &&& nodes.len() > 0
            &&& match nodes.last().data {
                NodeDataView::TurnError { message, .. } => end is Err && end->Err_0
                    == LightErrorView::TurnFailed(message),
                _ => end is Ok,
            }
        },
{
}

/// A stream that broke ends the run with its words.
pub proof fn law_broken_run(run: LightRunView, text: Seq<char>)
    requires
        run.store.last_stream_error == Some(text),
    ensures
        run.ending() matches Some(end) && end is Err && end->Err_0 == LightErrorView::StreamError(
            text,
        ),
{
}

/// Whether the run runs is what the host says of its own session; what it says of others does
/// not matter.
pub proof fn law_host_tells_run(run: LightRunView, session_id: Seq<char>, running: bool)
    ensures
        ({
            let out = run.after_host((HostFrameView::HostSessionStatus { session_id, running }));
            &&& session_id == run.session_id ==> out.running == running
            &&& session_id != run.session_id ==> out == run
            &&& out.store == run.store && out.printed == run.printed
        }),
{
}

/// A run that went well ends with code zero, one that failed with another.
pub proof fn law_exit_code(outcome: Result<(), LightErrorView>)
    ensures
        outcome is Ok <==> crate::app::light::last_words(outcome).1 == 0,
{
}

/// The task comes from the file that is named where no task is given, and from the pipe where
/// neither is; without any it is refused.
pub proof fn law_task_source(args: Seq<Seq<char>>, piped: bool, path: Seq<char>, task: Seq<char>)
    ensures
        args == seq!["--task"@, task] ==> crate::app::light::source_of(args, piped) == Ok::<
            TaskSourceView,
            Seq<char>,
        >(TaskSourceView::Task(task)),
        args == seq!["--file"@, path] ==> crate::app::light::source_of(args, piped) == Ok::<
            TaskSourceView,
            Seq<char>,
        >(TaskSourceView::File(path)),
        args.len() == 0 && piped ==> crate::app::light::source_of(args, piped) == Ok::<
            TaskSourceView,
            Seq<char>,
        >(TaskSourceView::Stdin),
        args.len() == 0 && !piped ==> crate::app::light::source_of(args, piped) is Err,
{
    reveal_strlit("--light");
    reveal_strlit("--task");
    reveal_strlit("--file");
    assert("--light"@.len() == 7 && "--task"@.len() == 6 && "--file"@.len() == 6);
    assert("--task"@[2] == 't' && "--file"@[2] == 'f');
    reveal_with_fuel(crate::app::light::scanned, 2);
}

} // verus!
