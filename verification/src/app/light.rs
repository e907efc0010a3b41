//! The worker without a screen: one session, one task, plain text.
//!
//! The task comes as an argument, from a file or from a pipe, in this order. What the assistant
//! wrote is printed as it settles; the last line says how it went.

use vstd::prelude::*;

use crate::client::{ClientError, ClientErrorView};
use crate::store::event_data::EventData;
use crate::store::node::{AssistantBlock, AssistantBlockView, ChatNode, ChatNodeView, NodeData, NodeDataView};
use crate::store::session::{SessionState, SessionView};
use crate::store::{SessionStore, StoreError, StoreErrorView, StoreView};
use crate::text::{begins_with, chars_of, joined, same, string_of};
use crate::wire::{HostFrame, HostFrameView, MuxFrame, MuxFrameView, SessionId};

verus! {

/// The most characters of a reported message.
pub const MAX_REPORT_MESSAGE: usize = 80;

/// Why the worker failed.
#[derive(Debug)]
pub enum LightError {
    Rpc(ClientError),
    Store(StoreError),
    StreamClosed,
    StreamError(String),
    TurnFailed(String),
    Io(String),
}

/// What a [`LightError`] stands for.
pub enum LightErrorView {
    Rpc(ClientErrorView),
    Store(StoreErrorView),
    StreamClosed,
    StreamError(Seq<char>),
    TurnFailed(Seq<char>),
    Io(Seq<char>),
}

impl View for LightError {
    type V = LightErrorView;

    open spec fn view(&self) -> LightErrorView {
        match *self {
            LightError::Rpc(error) => LightErrorView::Rpc(error@),
            LightError::Store(error) => LightErrorView::Store(error@),
            LightError::StreamClosed => LightErrorView::StreamClosed,
            LightError::StreamError(text) => LightErrorView::StreamError(text@),
            LightError::TurnFailed(text) => LightErrorView::TurnFailed(text@),
            LightError::Io(text) => LightErrorView::Io(text@),
        }
    }
}

/// A failure of the worker in words.
pub open spec fn failure_text(e: LightErrorView) -> Seq<char> {
    match e {
        LightErrorView::Rpc(error) => crate::client::error_text(error),
        LightErrorView::Store(error) => crate::store::error_text(error),
        LightErrorView::StreamClosed => "stream closed before the turn completed"@,
        LightErrorView::StreamError(text) => "stream error: "@ + text,
        LightErrorView::TurnFailed(text) => "turn failed: "@ + text,
        LightErrorView::Io(text) => "io error: "@ + text,
    }
}

impl LightError {
    /// The failure in words.
    pub fn message(&self) -> (r: String)
        ensures
            r@ == failure_text(self@),
    {
        match self {
            LightError::Rpc(error) => error.message(),
            LightError::Store(error) => error.message(),
            LightError::StreamClosed => "stream closed before the turn completed".to_owned(),
            LightError::StreamError(text) => joined("stream error: ", text.as_str()),
            LightError::TurnFailed(text) => joined("turn failed: ", text.as_str()),
            LightError::Io(text) => joined("io error: ", text.as_str()),
        }
    }
}

// ---------------------------------------------------------------------------
// the task
// ---------------------------------------------------------------------------

/// Where the task comes from.
#[derive(Debug, Clone, PartialEq)]
pub enum TaskSource {
    Task(String),
    File(String),
    Stdin,
}

/// What a [`TaskSource`] stands for.
pub enum TaskSourceView {
    Task(Seq<char>),
    File(Seq<char>),
    Stdin,
}

impl View for TaskSource {
    type V = TaskSourceView;

    open spec fn view(&self) -> TaskSourceView {
        match *self {
            TaskSource::Task(text) => TaskSourceView::Task(text@),
            TaskSource::File(path) => TaskSourceView::File(path@),
            TaskSource::Stdin => TaskSourceView::Stdin,
        }
    }
}

/// What the arguments from `i` on give for the task and for its file, where those before gave
/// `task` and `file`: of several, the last counts.
pub open spec fn scanned(
    args: Seq<Seq<char>>,
    i: int,
    task: Option<Seq<char>>,
    file: Option<Seq<char>>,
) -> Result<(Option<Seq<char>>, Option<Seq<char>>), Seq<char>>
    decreases args.len() - i,
{
    if i < 0 || i >= args.len() {
        Ok((task, file))
    } else if args[i] == "--light"@ {
        scanned(args, i + 1, task, file)
    } else if args[i] == "--task"@ {
        if i + 1 < args.len() {
            scanned(args, i + 2, Some(args[i + 1]), file)
        } else {
            Err("--task requires a value (quote the task text)"@)
        }
    } else if args[i] == "--file"@ {
        if i + 1 < args.len() {
            scanned(args, i + 2, task, Some(args[i + 1]))
        } else {
            Err("--file requires a path"@)
        }
    } else if args[i] == "--port"@ {
        if i + 1 < args.len() {
            scanned(args, i + 2, task, file)
        } else {
            Err("--port requires a value"@)
        }
    } else if "--port="@.is_prefix_of(args[i]) {
        scanned(args, i + 1, task, file)
    } else {
        Err("unknown argument `"@ + args[i] + "`"@)
    }
}

/// Where the task comes from: the argument, else the file, else the pipe.
pub open spec fn source_of(args: Seq<Seq<char>>, piped: bool) -> Result<TaskSourceView, Seq<char>> {
    match scanned(args, 0, None, None) {
        Ok((Some(task), _)) => Ok(TaskSourceView::Task(task)),
        Ok((None, Some(file))) => Ok(TaskSourceView::File(file)),
        Ok((None, None)) => if piped {
            Ok(TaskSourceView::Stdin)
        } else {
            Err("no task: pass --task TEXT, --file PATH, or pipe the task on stdin"@)
        },
        Err(message) => Err(message),
    }
}

/// Read the arguments of the worker. `stdin_piped` tells whether there is a pipe.
pub fn parse_light_args(args: &Vec<String>, stdin_piped: bool) -> (r: Result<TaskSource, String>)
    ensures
        match r {
            Ok(source) => source_of(crate::text::views(args@), stdin_piped) == Ok::<
                TaskSourceView,
                Seq<char>,
            >(source@),
            Err(message) => source_of(crate::text::views(args@), stdin_piped) == Err::<
                TaskSourceView,
                Seq<char>,
            >(message@),
        },
{
    let ghost all = crate::text::views(args@);
    let mut task: Option<String> = None;
    let mut file: Option<String> = None;
    let mut i: usize = 0;
    while i < args.len()
        invariant
            i <= args@.len(),
            all == crate::text::views(args@),
            scanned(all, 0, None, None) == scanned(
                all,
                i as int,
                crate::text::opt_view(task),
                crate::text::opt_view(file),
            ),
        decreases args.len() - i,
    {
        proof {
            assert(all[i as int] == args@[i as int]@);
        }
        let arg = args[i].as_str();
        if same(arg, "--light") {
            i = i + 1;
        } else if same(arg, "--task") {
            if i + 1 >= args.len() {
                return Err("--task requires a value (quote the task text)".to_owned());
            }
            proof {
                assert(all[i + 1] == args@[i + 1]@);
            }
            task = Some(args[i + 1].clone());
            i = i + 2;
        } else if same(arg, "--file") {
            if i + 1 >= args.len() {
                return Err("--file requires a path".to_owned());
            }
            proof {
                assert(all[i + 1] == args@[i + 1]@);
            }
            file = Some(args[i + 1].clone());
            i = i + 2;
        } else if same(arg, "--port") {
            if i + 1 >= args.len() {
                return Err("--port requires a value".to_owned());
            }
            i = i + 2;
        } else if begins_with(arg, "--port=") {
            i = i + 1;
        } else {
            let mut message = joined("unknown argument `", arg);
            message.append("`");
            return Err(message);
        }
    }
    match task {
        Some(text) => Ok(TaskSource::Task(text)),
        None => match file {
            Some(path) => Ok(TaskSource::File(path)),
            None => if stdin_piped {
                Ok(TaskSource::Stdin)
            } else {
                Err("no task: pass --task TEXT, --file PATH, or pipe the task on stdin".to_owned())
            },
        },
    }
}

/// A task as it was read, unless it is empty.
pub fn check_task(task: String) -> (r: Result<String, String>)
    ensures
        match r {
            Ok(text) => task@.len() > 0 && text == task,
            Err(message) => task@.len() == 0 && message@ == "task is empty"@,
        },
{
    if task.as_str().is_empty() {
        Err("task is empty".to_owned())
    } else {
        Ok(task)
    }
}

/// A task that was given as an argument is taken, whatever else there is.
pub proof fn law_argument_wins(args: Seq<Seq<char>>, text: Seq<char>, file: Option<Seq<char>>, piped: bool)
    requires
        scanned(args, 0, None, None) == Ok::<_, Seq<char>>((Some(text), file)),
    ensures
        source_of(args, piped) == Ok::<_, Seq<char>>(TaskSourceView::Task(text)),
{
}

proof fn lemma_last_task(
    args: Seq<Seq<char>>,
    i: int,
    task: Option<Seq<char>>,
    file: Option<Seq<char>>,
)
    requires
        0 <= i <= args.len(),
        task is Some,
        scanned(args, i, task, file) is Ok,
    ensures
        scanned(args, i, task, file)->Ok_0.0 is Some,
    decreases args.len() - i,
{
    if i < args.len() {
        if args[i] == "--light"@ {
            lemma_last_task(args, i + 1, task, file);
        } else if args[i] == "--task"@ {
            lemma_last_task(args, i + 2, Some(args[i + 1]), file);
        } else if args[i] == "--file"@ {
            lemma_last_task(args, i + 2, task, Some(args[i + 1]));
        } else if args[i] == "--port"@ {
            lemma_last_task(args, i + 2, task, file);
        } else {
            lemma_last_task(args, i + 1, task, file);
        }
    }
}

/// Arguments that begin with a task, and are understood, give a task: neither a file nor the
/// pipe is read.
pub proof fn law_task_first(args: Seq<Seq<char>>, piped: bool)
    requires
        args.len() >= 2,
        args[0] == "--task"@,
    ensures
        source_of(args, piped) is Err || source_of(args, piped)->Ok_0 is Task,
{
    reveal_strlit("--task");
    reveal_strlit("--light");
    assert("--task"@.len() == 6);
    assert("--light"@.len() == 7);
    if scanned(args, 0, None, None) is Ok {
        lemma_last_task(args, 2, Some(args[1]), None);
    }
}

// ---------------------------------------------------------------------------
// reports
// ---------------------------------------------------------------------------

/// Where the worker reports its state.
#[derive(Debug)]
pub struct HerdrReporter {
    pub pane: String,
    pub bin: String,
}

impl HerdrReporter {
    /// The reporter of a pane: with the program that is named, else the one that was found.
    /// None without a pane or without a program.
    pub fn resolve(pane: Option<String>, named: Option<String>, found: Option<String>) -> (r: Option<
        Self,
    >)
        ensures
            match r {
                Some(reporter) => pane == Some(reporter.pane) && (if named is Some {
                    named == Some(reporter.bin)
                } else {
                    found == Some(reporter.bin)
                }),
                None => pane is None || (named is None && found is None),
            },
    {
        match pane {
            Some(pane) => match named {
                Some(bin) => Some(HerdrReporter { pane, bin }),
                None => match found {
                    Some(bin) => Some(HerdrReporter { pane, bin }),
                    None => None,
                },
            },
            None => None,
        }
    }

    /// The arguments of a report. Of the message, the first [`MAX_REPORT_MESSAGE`] characters.
    pub fn report_args(&self, state: &str, message: &str) -> (r: Vec<String>)
        ensures
            crate::text::views(r@) == seq![
                "pane"@,
                "report-agent"@,
                self.pane@,
                "--source"@,
                "dsh-tui"@,
                "--agent"@,
                "dsh-worker"@,
                "--state"@,
                state@,
                "--message"@,
                if message@.len() <= MAX_REPORT_MESSAGE {
                    message@
                } else {
                    message@.take(MAX_REPORT_MESSAGE as int)
                },
            ],
    {
        let chars = chars_of(message);
        let mut front: Vec<char> = Vec::new();
        let mut i: usize = 0;
        while i < chars.len() && i < MAX_REPORT_MESSAGE
            invariant
                i <= chars@.len(),
                i <= MAX_REPORT_MESSAGE,
                front@ == chars@.take(i as int),
            decreases chars.len() - i,
        {
            front.push(chars[i]);
            i = i + 1;
            proof {
                assert(front@ =~= chars@.take(i as int));
            }
        }
        proof {
            assert(chars@.take(chars@.len() as int) =~= chars@);
        }
        let mut out: Vec<String> = Vec::new();
        out.push("pane".to_owned());
        out.push("report-agent".to_owned());
        out.push(self.pane.clone());
        out.push("--source".to_owned());
        out.push("dsh-tui".to_owned());
        out.push("--agent".to_owned());
        out.push("dsh-worker".to_owned());
        out.push("--state".to_owned());
        out.push(state.to_owned());
        out.push("--message".to_owned());
        out.push(string_of(front.as_slice()));
        proof {
            assert(crate::text::views(out@) =~= seq![
                "pane"@,
                "report-agent"@,
                self.pane@,
                "--source"@,
                "dsh-tui"@,
                "--agent"@,
                "dsh-worker"@,
                "--state"@,
                state@,
                "--message"@,
                if message@.len() <= MAX_REPORT_MESSAGE {
                    message@
                } else {
                    message@.take(MAX_REPORT_MESSAGE as int)
                },
            ]);
        }
        out
    }
}

// ---------------------------------------------------------------------------
// what is printed
// ---------------------------------------------------------------------------

/// The text of an assistant step: its text blocks, one behind the other.
pub open spec fn step_text(blocks: Seq<AssistantBlockView>) -> Seq<char>
    decreases blocks.len(),
{
    if blocks.len() == 0 {
        Seq::empty()
    } else {
        step_text(blocks.drop_last()) + (match blocks.last() {
            AssistantBlockView::Text { text } => text,
            _ => Seq::empty(),
        })
    }
}

/// Whether a node is an assistant step that will not change any more.
pub open spec fn settled(node: ChatNodeView) -> bool {
    node.data matches NodeDataView::Assistant { finalized, interrupted, .. } && (finalized
        || interrupted)
}

/// A text with a line feed at its end; nothing for an empty one.
pub open spec fn as_lines(text: Seq<char>) -> Seq<Seq<char>> {
    if text.len() == 0 {
        Seq::empty()
    } else if text.last() == '\n' {
        seq![text]
    } else {
        seq![text.push('\n')]
    }
}

/// What is printed of some nodes, and the keys of those that were printed, where `before` were
/// already.
pub open spec fn printed_of(nodes: Seq<ChatNodeView>, before: Seq<Seq<char>>) -> (
    Seq<Seq<char>>,
    Seq<Seq<char>>,
)
    decreases nodes.len(),
{
    if nodes.len() == 0 {
        (before, Seq::empty())
    } else {
        let (keys, out) = printed_of(nodes.drop_last(), before);
        let node = nodes.last();
        if settled(node) && !keys.contains(node.key) {
            (keys.push(node.key), out + as_lines(step_text(node.data->Assistant_blocks)))
        } else {
            (keys, out)
        }
    }
}

fn text_of_step(blocks: &Vec<AssistantBlock>) -> (r: String)
    ensures
        r@ == step_text(crate::text::views(blocks@)),
{
    let ghost all = crate::text::views(blocks@);
    let mut out = String::new();
    let mut i: usize = 0;
    proof {
        assert(out@ =~= step_text(all.take(0)));
    }
    while i < blocks.len()
        invariant
            i <= blocks@.len(),
            all == crate::text::views(blocks@),
            out@ == step_text(all.take(i as int)),
        decreases blocks.len() - i,
    {
        proof {
            assert(all[i as int] == blocks@[i as int]@);
            assert(all.take(i + 1).drop_last() =~= all.take(i as int));
            assert(all.take(i + 1).last() == all[i as int]);
            assert(out@ + Seq::<char>::empty() =~= out@);
        }
        match &blocks[i] {
            AssistantBlock::Text { text } => out.append(text.as_str()),
            _ => {},
        }
        i = i + 1;
    }
    proof {
        assert(all.take(i as int) =~= all);
    }
    out
}

fn has_key(keys: &Vec<String>, key: &str) -> (r: bool)
    ensures
        r == crate::text::views(keys@).contains(key@),
{
    let ghost all = crate::text::views(keys@);
    let mut i: usize = 0;
    while i < keys.len()
        invariant
            i <= keys@.len(),
            all == crate::text::views(keys@),
            forall|k: int| 0 <= k < i ==> #[trigger] all[k] != key@,
        decreases keys.len() - i,
    {
        proof {
            assert(all[i as int] == keys@[i as int]@);
        }
        if same(keys[i].as_str(), key) {
            return true;
        }
        i = i + 1;
    }
    false
}

fn ends_line(text: &str) -> (r: bool)
    ensures
        r == (text@.len() > 0 && text@.last() == '\n'),
{
    let chars = chars_of(text);
    chars.len() > 0 && chars[chars.len() - 1] == '\n'
}

/// What is to be printed of some nodes: the text of every settled assistant step that was not
/// printed yet.
pub fn settled_texts(nodes: &Vec<ChatNode>, printed: &mut Vec<String>) -> (r: Vec<String>)
    ensures
        ({
            let (keys, out) = printed_of(
                crate::text::views(nodes@),
                crate::text::views(old(printed)@),
            );
            &&& crate::text::views(final(printed)@) == keys
            &&& crate::text::views(r@) == out
        }),
{
    let ghost all = crate::text::views(nodes@);
    let ghost before = crate::text::views(printed@);
    let mut out: Vec<String> = Vec::new();
    let mut i: usize = 0;
    proof {
        assert(crate::text::views(out@) =~= printed_of(all.take(0), before).1);
    }
    while i < nodes.len()
        invariant
            i <= nodes@.len(),
            all == crate::text::views(nodes@),
            crate::text::views(printed@) == printed_of(all.take(i as int), before).0,
            crate::text::views(out@) == printed_of(all.take(i as int), before).1,
        decreases nodes.len() - i,
    {
        proof {
            assert(all[i as int] == nodes@[i as int]@);
            assert(all.take(i + 1).drop_last() =~= all.take(i as int));
            assert(all.take(i + 1).last() == all[i as int]);
        }
        let text = match &nodes[i].data {
            NodeData::Assistant { finalized, interrupted, blocks, .. } => if *finalized
                || *interrupted {
                Some(text_of_step(blocks))
            } else {
                None
            },
            _ => None,
        };
        match text {
            Some(text) => {
                if !has_key(printed, nodes[i].key.as_str()) {
                    let key = nodes[i].key.clone();
                    proof {
                        assert(crate::text::views(printed@.push(key)) =~= crate::text::views(
                            printed@,
                        ).push(key@));
                    }
                    printed.push(key);
                    let ghost shown = crate::text::views(out@);
                    let ghost said = text@;
                    if !text.as_str().is_empty() {
                        let mut line = text;
                        if !ends_line(line.as_str()) {
                            line.push('\n');
                        }
                        proof {
                            assert(crate::text::views(out@.push(line)) =~= shown + as_lines(said));
                        }
                        out.push(line);
                    } else {
                        proof {
                            assert(shown + as_lines(said) =~= shown);
                        }
                    }
                }
            },
            None => {},
        }
        i = i + 1;
    }
    proof {
        assert(all.take(i as int) =~= all);
    }
    out
}

proof fn lemma_keys_kept(nodes: Seq<ChatNodeView>, before: Seq<Seq<char>>)
    ensures
        forall|k: Seq<char>| before.contains(k) ==> #[trigger] printed_of(nodes, before).0.contains(k),
        forall|i: int|
            0 <= i < nodes.len() && settled(#[trigger] nodes[i]) ==> printed_of(
                nodes,
                before,
            ).0.contains(nodes[i].key),
    decreases nodes.len(),
{
    if nodes.len() > 0 {
        let rest = nodes.drop_last();
        lemma_keys_kept(rest, before);
        let known = printed_of(rest, before).0;
        let now = printed_of(nodes, before).0;
        assert forall|k: Seq<char>| known.contains(k) implies now.contains(k) by {
            let j = choose|j: int| 0 <= j < known.len() && known[j] == k;
            assert(now[j] == k);
        }
        assert forall|i: int| 0 <= i < nodes.len() && settled(#[trigger] nodes[i]) implies now.contains(
            nodes[i].key,
        ) by {
            if i < rest.len() {
                assert(rest[i] == nodes[i]);
            } else if !known.contains(nodes.last().key) {
                assert(now[now.len() - 1] == nodes.last().key);
            }
        }
    }
}

proof fn lemma_nothing_left(nodes: Seq<ChatNodeView>, keys: Seq<Seq<char>>)
    requires
        forall|i: int| 0 <= i < nodes.len() && settled(#[trigger] nodes[i]) ==> keys.contains(nodes[i].key),
    ensures
        printed_of(nodes, keys) == (keys, Seq::<Seq<char>>::empty()),
    decreases nodes.len(),
{
    if nodes.len() > 0 {
        let rest = nodes.drop_last();
        assert forall|i: int| 0 <= i < rest.len() && settled(#[trigger] rest[i]) implies keys.contains(
            rest[i].key,
        ) by {
            assert(nodes[i] == rest[i]);
        }
        lemma_nothing_left(rest, keys);
        assert(nodes[nodes.len() - 1] == nodes.last());
    }
}

/// Every step is printed once: what was printed is not printed again.
pub proof fn law_printed_once(nodes: Seq<ChatNodeView>, before: Seq<Seq<char>>)
    ensures
        printed_of(nodes, printed_of(nodes, before).0).1.len() == 0,
{
    lemma_keys_kept(nodes, before);
    lemma_nothing_left(nodes, printed_of(nodes, before).0);
}

// ---------------------------------------------------------------------------
// the run
// ---------------------------------------------------------------------------

/// Whether an event of the window ends a turn.
pub open spec fn turn_over(s: SessionView) -> bool {
    exists|i: int| 0 <= i < s.events.len() && (#[trigger] s.events[i]).data is TurnEnd
}

/// Whether the turn of a session is complete: the host does not say that it runs, its last node
/// is settled, and there is more than the prompt, or the turn was closed empty.
pub open spec fn completes(running: bool, store: StoreView, id: Seq<char>) -> bool {
    !running && store.sessions.dom().contains(id) && {
        let s = store.sessions[id];
        !s.unsettled() && s.nodes.len() > 0 && (s.nodes.last().data is User ==> turn_over(s))
    }
}

/// How a complete turn went: a turn that ended with an error failed.
pub open spec fn verdict(store: StoreView, id: Seq<char>) -> Result<(), LightErrorView> {
    if store.sessions.dom().contains(id) && store.sessions[id].nodes.len() > 0 {
        match store.sessions[id].nodes.last().data {
            NodeDataView::TurnError { message, .. } => Err(LightErrorView::TurnFailed(message)),
            _ => Ok(()),
        }
    } else {
        Ok(())
    }
}

/// What an outcome of the worker stands for.
pub open spec fn outcome_of(r: Result<(), LightError>) -> Result<(), LightErrorView> {
    match r {
        Ok(()) => Ok(()),
        Err(error) => Err(error@),
    }
}

fn turn_ended(state: &SessionState) -> (r: bool)
    ensures
        r == turn_over(state@),
{
    let events = state.events();
    let ghost all = state@.events;
    let mut i: usize = 0;
    while i < events.len()
        invariant
            i <= events@.len(),
            all == state@.events,
            all == crate::text::views(events@),
            forall|k: int| 0 <= k < i ==> !((#[trigger] all[k]).data is TurnEnd),
        decreases events.len() - i,
    {
        proof {
            assert(all[i as int] == events@[i as int]@);
        }
        match &events[i].data {
            EventData::TurnEnd { .. } => {
                proof {
                    assert(all[i as int].data is TurnEnd);
                }
                return true;
            },
            _ => {},
        }
        i = i + 1;
    }
    false
}

/// Whether the turn of a session is complete.
pub fn turn_complete(running: bool, store: &SessionStore, id: &SessionId) -> (r: bool)
    ensures
        r == completes(running, store@, id@),
{
    if running {
        return false;
    }
    match store.session(id) {
        Some(state) => {
            if state.has_unsettled_tail() {
                return false;
            }
            let nodes = state.nodes();
            if nodes.len() == 0 {
                return false;
            }
            let last = nodes.len() - 1;
            proof {
                assert(state@.nodes.last() == nodes@[last as int]@);
            }
            match &nodes[last].data {
                NodeData::User { .. } => turn_ended(state),
                _ => true,
            }
        },
        None => false,
    }
}

/// How a complete turn went.
pub fn finish(store: &SessionStore, id: &SessionId) -> (r: Result<(), LightError>)
    ensures
        outcome_of(r) == verdict(store@, id@),
{
    match store.session(id) {
        Some(state) => {
            let nodes = state.nodes();
            if nodes.len() > 0 {
                let last = nodes.len() - 1;
                proof {
                    assert(state@.nodes.last() == nodes@[last as int]@);
                }
                match &nodes[last].data {
                    NodeData::TurnError { message, .. } => {
                        return Err(LightError::TurnFailed(message.clone()));
                    },
                    _ => {},
                }
            }
            Ok(())
        },
        None => Ok(()),
    }
}

/// A run of the worker: its session, what it knows of it, whether the host says that it runs,
/// and which steps were printed.
#[derive(Debug)]
pub struct LightRun {
    pub session_id: SessionId,
    pub store: SessionStore,
    pub running: bool,
    pub printed: Vec<String>,
}

/// What a [`LightRun`] stands for.
pub struct LightRunView {
    pub session_id: Seq<char>,
    pub store: StoreView,
    pub running: bool,
    pub printed: Seq<Seq<char>>,
}

impl View for LightRun {
    type V = LightRunView;

    open spec fn view(&self) -> LightRunView {
        LightRunView {
            session_id: self.session_id@,
            store: self.store@,
            running: self.running,
            printed: crate::text::views(self.printed@),
        }
    }
}

/// What follows from a frame: what is printed, and how the run ends, where it does.
#[derive(Debug)]
pub struct LightStep {
    pub output: Vec<String>,
    pub end: Option<Result<(), LightError>>,
}

impl LightRunView {
    /// What is printed now.
    pub open spec fn printing(self) -> (Seq<Seq<char>>, Seq<Seq<char>>) {
        if self.store.sessions.dom().contains(self.session_id) {
            printed_of(self.store.sessions[self.session_id].nodes, self.printed)
        } else {
            (self.printed, Seq::empty())
        }
    }

    /// How the run ends, where it does: with an error of the stream, or with its turn.
    pub open spec fn ending(self) -> Option<Result<(), LightErrorView>> {
        match self.store.last_stream_error {
            Some(text) => Some(Err(LightErrorView::StreamError(text))),
            None => if completes(self.running, self.store, self.session_id) {
                Some(verdict(self.store, self.session_id))
            } else {
                None
            },
        }
    }

    /// The run after a frame, what is printed, and how it ends, where it does.
    pub open spec fn after_frame(self, frame: MuxFrameView) -> (
        LightRunView,
        Seq<Seq<char>>,
        Option<Result<(), LightErrorView>>,
    ) {
        let (store, told) = self.store.after_frame(frame);
        let there = LightRunView { store, ..self };
        match told {
            Ok(_) => {
                let (printed, output) = there.printing();
                (LightRunView { printed, ..there }, output, there.ending())
            },
            Err(error) => (there, Seq::empty(), Some(Err(LightErrorView::Store(error)))),
        }
    }

    /// The run after a frame of the host.
    pub open spec fn after_host(self, frame: HostFrameView) -> LightRunView {
        match frame {
            HostFrameView::HostSessionStatus { session_id, running } => if session_id
                == self.session_id {
                LightRunView { running, ..self }
            } else {
                self
            },
            _ => self,
        }
    }
}

/// What the end of a run stands for.
pub open spec fn end_of(end: Option<Result<(), LightError>>) -> Option<Result<(), LightErrorView>> {
    match end {
        Some(r) => Some(outcome_of(r)),
        None => None,
    }
}

impl LightRun {
    /// A run that begins.
    pub fn new(session_id: SessionId) -> (r: Self)
        ensures
            r@.session_id == session_id@,
            r@.store.sessions == Map::<Seq<char>, SessionView>::empty(),
            r@.store.last_stream_error is None,
            !r@.running,
            r@.printed.len() == 0,
    {
        LightRun { session_id, store: SessionStore::new(), running: false, printed: Vec::new() }
    }

    /// Take in a frame.
    pub fn on_frame(&mut self, frame: MuxFrame) -> (r: LightStep)
        ensures
            ({
                let (after, output, end) = old(self)@.after_frame(frame@);
                &&& final(self)@ == after
                &&& crate::text::views(r.output@) == output
                &&& end_of(r.end) == end
            }),
    {
        let none: Vec<String> = Vec::new();
        proof {
            assert(crate::text::views(none@) =~= Seq::<Seq<char>>::empty());
        }
        match self.store.ingest(frame) {
            Ok(()) => {},
            Err(error) => {
                return LightStep { output: none, end: Some(Err(LightError::Store(error))) };
            },
        }
        let ghost there = self@;
        let output = match self.store.session(&self.session_id) {
            Some(state) => settled_texts(state.nodes(), &mut self.printed),
            None => none,
        };
        let end = match self.store.last_stream_error() {
            Some(text) => Some(Err(LightError::StreamError(text.clone()))),
            None => if turn_complete(self.running, &self.store, &self.session_id) {
                Some(finish(&self.store, &self.session_id))
            } else {
                None
            },
        };
        LightStep { output, end }
    }

    /// Take in a frame of the host.
    pub fn on_host_frame(&mut self, frame: HostFrame)
        ensures
            final(self)@ == old(self)@.after_host(frame@),
    {
        match frame {
            HostFrame::HostSessionStatus { session_id, running } => {
                if same(session_id.0.as_str(), self.session_id.0.as_str()) {
                    self.running = running;
                }
            },
            _ => {},
        }
    }
}

/// A run that ends well has a session whose last node is settled and is no error, while the
/// host did not say that it runs.
pub proof fn law_done_is_settled(run: LightRunView, frame: MuxFrameView)
    requires
        run.after_frame(frame).2 == Some(Ok::<(), LightErrorView>(())),
    ensures
        ({
            let after = run.after_frame(frame).0;
            &&& after.store.sessions.dom().contains(run.session_id)
            &&& !after.store.sessions[run.session_id].unsettled()
            &&& !(after.store.sessions[run.session_id].nodes.last().data is TurnError)
            &&& !run.running
        }),
{
}

/// The last line of the output, and the exit code.
pub open spec fn last_words(outcome: Result<(), LightErrorView>) -> (Seq<char>, i32) {
    match outcome {
        Ok(_) => ("dsh-worker: done"@, 0),
        Err(error) => ("dsh-worker: error: "@ + failure_text(error), 1),
    }
}

/// The last line of the output, and the exit code.
pub fn sentinel(outcome: &Result<(), LightError>) -> (r: (String, i32))
    ensures
        (r.0@, r.1) == last_words(outcome_of(*outcome)),
{
    match outcome {
        Ok(()) => ("dsh-worker: done".to_owned(), 0),
        Err(error) => (joined("dsh-worker: error: ", error.message().as_str()), 1),
    }
}

/// The state that is reported at the end of a run, and the message with it.
pub fn final_report(outcome: &Result<(), LightError>) -> (r: (String, String))
    ensures
        (r.0@, r.1@) == (match outcome_of(*outcome) {
            Ok(_) => ("idle"@, "exit 0"@),
            Err(error) => ("blocked"@, failure_text(error)),
        }),
{
    match outcome {
        Ok(()) => ("idle".to_owned(), "exit 0".to_owned()),
        Err(error) => ("blocked".to_owned(), error.message()),
    }
}

} // verus!
