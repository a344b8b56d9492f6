//! The executor: the decisions of a run, one step at a time. It says what
//! is to be done next, to the file system or by the renderer, and is told
//! how that went.

use vstd::prelude::*;
use vstd::string::*;
use crate::plan::{action_views, ActionView, FileAction};

verus! {

/// An action that could not be carried out. The actions before it are
/// done and stay done; the actions after it are not begun.
#[derive(Clone, Debug, PartialEq, Eq)]
pub struct ExecError {
    /// The file in the template tree.
    pub source: String,
    /// Where its instance was to go.
    pub destination: String,
    /// What went wrong.
    pub message: String,
}

/// What is to be done next.
#[derive(Clone, Debug, PartialEq, Eq)]
pub enum Command {
    /// Create the directories above `destination`, as far as they are
    /// missing.
    CreateParent { destination: String },
    /// Read the text of the file at `source`.
    ReadTemplate { source: String },
    /// Render `template`, the text that was read, with the context of the
    /// run.
    Render { template: String },
    /// Store `content` at `destination`, replacing what is there.
    WriteRendered { destination: String, content: String },
    /// Copy the file at `source` to `destination` byte for byte, replacing
    /// what is there.
    CopyFile { source: String, destination: String },
    /// Every action is done.
    Finished,
    /// The run has ended with this failure.
    Failed(ExecError),
}

/// How the last command went.
#[derive(Clone, Debug, PartialEq, Eq)]
pub enum Reply {
    /// It is done.
    Done,
    /// The text that was read, or the text that was rendered.
    Content(String),
    /// It could not be done, for this reason.
    Failed(String),
}

/// What the executor is waiting for.
#[derive(Clone, Copy, Debug, PartialEq, Eq, Structural)]
pub enum Stage {
    /// For the directories above the current action's destination.
    Preparing,
    /// For the text of the current action's source.
    Reading,
    /// For what the renderer makes of that text.
    Rendering,
    /// For the current action's file to be stored.
    Storing,
    /// For nothing: every action is done.
    Finished,
    /// For nothing: the current action has failed.
    Failed,
}

/// The state of a run.
#[derive(Debug)]
pub struct Executor {
    actions: Vec<FileAction>,
    position: usize,
    stage: Stage,
    message: String,
}

/// A failure as plain text.
pub struct ExecErrorView {
    pub source: Seq<char>,
    pub destination: Seq<char>,
    pub message: Seq<char>,
}

/// A command as plain text.
pub enum CommandView {
    CreateParent { destination: Seq<char> },
    ReadTemplate { source: Seq<char> },
    Render { template: Seq<char> },
    WriteRendered { destination: Seq<char>, content: Seq<char> },
    CopyFile { source: Seq<char>, destination: Seq<char> },
    Finished,
    Failed(ExecErrorView),
}

/// A reply as plain text.
pub enum ReplyView {
    Done,
    Content(Seq<char>),
    Failed(Seq<char>),
}

/// The state of a run as plain values: the actions, which of them is the
/// current one, what is awaited, and the reason of a failure.
pub struct ExecutorView {
    pub actions: Seq<ActionView>,
    pub position: nat,
    pub stage: Stage,
    pub message: Seq<char>,
}

impl View for ExecError {
    type V = ExecErrorView;

    open spec fn view(&self) -> ExecErrorView {
        ExecErrorView {
            source: self.source@,
            destination: self.destination@,
            message: self.message@,
        }
    }
}

impl View for Command {
    type V = CommandView;

    open spec fn view(&self) -> CommandView {
        match *self {
            Command::CreateParent { destination } => CommandView::CreateParent {
                destination: destination@,
            },
            Command::ReadTemplate { source } => CommandView::ReadTemplate { source: source@ },
            Command::Render { template } => CommandView::Render { template: template@ },
            Command::WriteRendered { destination, content } => CommandView::WriteRendered {
                destination: destination@,
                content: content@,
            },
            Command::CopyFile { source, destination } => CommandView::CopyFile {
                source: source@,
                destination: destination@,
            },
            Command::Finished => CommandView::Finished,
            Command::Failed(error) => CommandView::Failed(error@),
        }
    }
}

impl View for Reply {
    type V = ReplyView;

    open spec fn view(&self) -> ReplyView {
        match *self {
            Reply::Done => ReplyView::Done,
            Reply::Content(text) => ReplyView::Content(text@),
            Reply::Failed(message) => ReplyView::Failed(message@),
        }
    }
}

impl View for Executor {
    type V = ExecutorView;

    closed spec fn view(&self) -> ExecutorView {
        ExecutorView {
            actions: action_views(self.actions@),
            position: self.position as nat,
            stage: self.stage,
            message: self.message@,
        }
    }
}

/// The reason given where a reply does not answer the command.
pub open spec fn unexpected_reply() -> Seq<char> {
    "unexpected reply"@
}

/// The failure of an action for a reason.
pub open spec fn failure_of(action: ActionView, message: Seq<char>) -> ExecErrorView {
    ExecErrorView { source: action.source, destination: action.destination, message }
}

/// Turning to the action at `position`: its directories are asked for, or
/// the run is finished where no action is left.
pub open spec fn turned_to(state: ExecutorView, position: nat) -> (ExecutorView, CommandView) {
    if position < state.actions.len() {
        (
            ExecutorView { position, stage: Stage::Preparing, ..state },
            CommandView::CreateParent { destination: state.actions[position as int].destination },
        )
    } else {
        (ExecutorView { position, stage: Stage::Finished, ..state }, CommandView::Finished)
    }
}

/// The current action fails for a reason, and the run ends.
pub open spec fn failed_with(state: ExecutorView, message: Seq<char>) -> (
    ExecutorView,
    CommandView,
) {
    (
        ExecutorView { stage: Stage::Failed, message, ..state },
        CommandView::Failed(failure_of(state.actions[state.position as int], message)),
    )
}

/// The state at the start of a run, with the first command.
pub open spec fn begun(actions: Seq<ActionView>) -> (ExecutorView, CommandView) {
    turned_to(
        ExecutorView { actions, position: 0, stage: Stage::Finished, message: Seq::empty() },
        0,
    )
}

/// One step of a run: the state and the command that follow a reply.
///
/// Once the directories are there, a template is read and any other file
/// copied. The text of a template is handed on to be rendered as it was
/// read, and what comes back is stored. Once the file is stored the next
/// action is turned to. A failure that is reported, the renderer's refusal
/// among them, or a reply that does not answer the command, fails the
/// action. A run that has ended stays as it is and repeats its last word.
pub open spec fn stepped(state: ExecutorView, reply: ReplyView) -> (ExecutorView, CommandView) {
    let action = state.actions[state.position as int];
    match (state.stage, reply) {
        (Stage::Finished, _) => (state, CommandView::Finished),
        (Stage::Failed, _) => (state, CommandView::Failed(failure_of(action, state.message))),
        (_, ReplyView::Failed(message)) => failed_with(state, message),
        (Stage::Preparing, ReplyView::Done) => if action.is_template {
            (
                ExecutorView { stage: Stage::Reading, ..state },
                CommandView::ReadTemplate { source: action.source },
            )
        } else {
            (
                ExecutorView { stage: Stage::Storing, ..state },
                CommandView::CopyFile { source: action.source, destination: action.destination },
            )
        },
        (Stage::Reading, ReplyView::Content(text)) => (
            ExecutorView { stage: Stage::Rendering, ..state },
            CommandView::Render { template: text },
        ),
        (Stage::Rendering, ReplyView::Content(text)) => (
            ExecutorView { stage: Stage::Storing, ..state },
            CommandView::WriteRendered { destination: action.destination, content: text },
        ),
        (Stage::Storing, ReplyView::Done) => turned_to(state, state.position + 1),
        _ => failed_with(state, unexpected_reply()),
    }
}

/// How a failed action is reported: its destination, its source and the
/// reason.
pub open spec fn failure_text(error: ExecErrorView) -> Seq<char> {
    "Failed to produce `"@ + error.destination + "` from `"@ + error.source + "`: "@
        + error.message
}

impl ExecError {
    /// The report of the failure in one line.
    pub fn describe(&self) -> (text: String)
        ensures
            text@ == failure_text(self@),
    {
        let mut text = "Failed to produce `".to_owned();
        text.append(self.destination.as_str());
        text.append("` from `");
        text.append(self.source.as_str());
        text.append("`: ");
        text.append(self.message.as_str());
        text
    }
}

impl Executor {
    #[verifier::type_invariant]
    spec fn well_formed(self) -> bool {
        &&& self.position <= self.actions@.len()
        &&& self.stage != Stage::Finished ==> self.position < self.actions@.len()
        &&& (self.stage == Stage::Reading || self.stage == Stage::Rendering)
            ==> self.actions@[self.position as int].is_template
    }

    /// Begins a run over the resolved actions and gives the first command.
    pub fn start(actions: Vec<FileAction>) -> (started: (Executor, Command))
        ensures
            (started.0@, started.1@) == begun(action_views(actions@)),
    {
        if actions.len() > 0 {
            let destination = actions[0].destination.clone();
            (
                Executor {
                    actions,
                    position: 0,
                    stage: Stage::Preparing,
                    message: String::new(),
                },
                Command::CreateParent { destination },
            )
        } else {
            (
                Executor {
                    actions,
                    position: 0,
                    stage: Stage::Finished,
                    message: String::new(),
                },
                Command::Finished,
            )
        }
    }

    /// Whether the run has ended, finished or failed.
    pub fn is_over(&self) -> (over: bool)
        ensures
            over == (self@.stage == Stage::Finished || self@.stage == Stage::Failed),
    {
        self.stage == Stage::Finished || self.stage == Stage::Failed
    }

    /// Takes a reply and gives the next command.
    pub fn step(&mut self, reply: Reply) -> (command: Command)
        ensures
            (final(self)@, command@) == stepped(old(self)@, reply@),
    {
        proof {
            use_type_invariant(&*self);
        }
        if self.stage == Stage::Finished {
            return Command::Finished;
        }
        let action = &self.actions[self.position];
        if self.stage == Stage::Failed {
            return Command::Failed(
                ExecError {
                    source: action.source.clone(),
                    destination: action.destination.clone(),
                    message: self.message.clone(),
                },
            );
        }
        let outcome: Result<Command, String> = match (self.stage, reply) {
            (_, Reply::Failed(message)) => Err(message),
            (Stage::Preparing, Reply::Done) => {
                if action.is_template {
                    let command = Command::ReadTemplate { source: action.source.clone() };
                    self.stage = Stage::Reading;
                    Ok(command)
                } else {
                    let command = Command::CopyFile {
                        source: action.source.clone(),
                        destination: action.destination.clone(),
                    };
                    self.stage = Stage::Storing;
                    Ok(command)
                }
            },
            (Stage::Reading, Reply::Content(template)) => {
                self.stage = Stage::Rendering;
                Ok(Command::Render { template })
            },
            (Stage::Rendering, Reply::Content(content)) => {
                let command = Command::WriteRendered {
                    destination: action.destination.clone(),
                    content,
                };
                self.stage = Stage::Storing;
                Ok(command)
            },
            (Stage::Storing, Reply::Done) => {
                let count: usize = self.actions.len();
                let following: usize = self.position + 1;
                if following < count {
                    self.position = following;
                    self.stage = Stage::Preparing;
                    Ok(
                        Command::CreateParent {
                            destination: self.actions[following].destination.clone(),
                        },
                    )
                } else {
                    self.stage = Stage::Finished;
                    self.position = following;
                    Ok(Command::Finished)
                }
            },
            _ => {
                proof {
                    reveal_strlit("unexpected reply");
                }
                Err("unexpected reply".to_owned())
            },
        };
        match outcome {
            Ok(command) => command,
            Err(message) => {
                let action = &self.actions[self.position];
                let error = ExecError {
                    source: action.source.clone(),
                    destination: action.destination.clone(),
                    message: message.clone(),
                };
                self.message = message;
                self.stage = Stage::Failed;
                Command::Failed(error)
            },
        }
    }
}

/// The reply answers the command with success: a text where a text was
/// asked for, and otherwise the word that it is done.
pub open spec fn succeeds(command: CommandView, reply: ReplyView) -> bool {
    match command {
        CommandView::CreateParent { .. } => reply is Done,
        CommandView::WriteRendered { .. } => reply is Done,
        CommandView::CopyFile { .. } => reply is Done,
        CommandView::ReadTemplate { .. } => reply is Content,
        CommandView::Render { .. } => reply is Content,
        CommandView::Finished => true,
        CommandView::Failed(_) => false,
    }
}

/// The state of a run over the actions after the replies, with the command
/// that was given last.
pub open spec fn run(actions: Seq<ActionView>, replies: Seq<ReplyView>) -> (
    ExecutorView,
    CommandView,
)
    decreases replies.len(),
{
    if replies.len() == 0 {
        begun(actions)
    } else {
        stepped(run(actions, replies.drop_last()).0, replies.last())
    }
}

/// Every reply of the run answers with success the command that was given
/// before it.
pub open spec fn all_succeed(actions: Seq<ActionView>, replies: Seq<ReplyView>) -> bool {
    forall|j: int|
        0 <= j < replies.len() ==> succeeds(
            (#[trigger] run(actions, replies.take(j))).1,
            replies[j],
        )
}

/// The command itself where it stores a file, by writing or by copying.
pub open spec fn store_of(command: CommandView) -> Seq<CommandView> {
    match command {
        CommandView::WriteRendered { .. } => seq![command],
        CommandView::CopyFile { .. } => seq![command],
        _ => Seq::empty(),
    }
}

/// The commands of a run that store a file, in the order in which they
/// were given.
pub open spec fn stores(actions: Seq<ActionView>, replies: Seq<ReplyView>) -> Seq<CommandView>
    decreases replies.len(),
{
    if replies.len() == 0 {
        store_of(begun(actions).1)
    } else {
        stores(actions, replies.drop_last()) + store_of(run(actions, replies).1)
    }
}

/// The command stores the file of the action: it writes to the destination
/// of a template, or copies the source of any other file to its
/// destination.
pub open spec fn store_for(action: ActionView, command: CommandView) -> bool {
    match command {
        CommandView::WriteRendered { destination, .. } => action.is_template && destination
            == action.destination,
        CommandView::CopyFile { source, destination } => !action.is_template && source
            == action.source && destination == action.destination,
        _ => false,
    }
}

/// The storing commands are those of the first `count` actions: one for
/// each, in order, and no other.
pub open spec fn stores_match(stored: Seq<CommandView>, actions: Seq<ActionView>, count: int) -> bool {
    &&& stored.len() == count
    &&& count <= actions.len()
    &&& forall|i: int| 0 <= i < count ==> store_for(actions[i], #[trigger] stored[i])
}

/// A run is on track: it has not failed, its last command is the one its
/// stage waits for, and the files stored so far are those of the actions
/// before the current one, and of the current one where that is being
/// stored.
pub open spec fn on_track(
    actions: Seq<ActionView>,
    state: ExecutorView,
    command: CommandView,
    stored: Seq<CommandView>,
) -> bool {
    let at = state.position as int;
    &&& state.actions == actions
    &&& match state.stage {
        Stage::Preparing => at < actions.len() && command == (CommandView::CreateParent {
            destination: actions[at].destination,
        }) && stores_match(stored, actions, at),
        Stage::Reading => at < actions.len() && actions[at].is_template && command == (
        CommandView::ReadTemplate { source: actions[at].source }) && stores_match(
            stored,
            actions,
            at,
        ),
        Stage::Rendering => at < actions.len() && actions[at].is_template && command is Render
            && stores_match(stored, actions, at),
        Stage::Storing => at < actions.len() && store_for(actions[at], command) && stores_match(
            stored,
            actions,
            at + 1,
        ),
        Stage::Finished => at == actions.len() && command == CommandView::Finished
            && stores_match(stored, actions, at),
        Stage::Failed => false,
    }
}

/// A run whose replies are all successes stays on track. It stores one
/// file for each action, in the order of the actions, by a write to the
/// destination of a template or a copy of any other source to its
/// destination, and stores nothing else; once it has finished it has done
/// so for every action.
pub proof fn successful_run_stores_each_action_once(
    actions: Seq<ActionView>,
    replies: Seq<ReplyView>,
)
    requires
        all_succeed(actions, replies),
    ensures
        on_track(actions, run(actions, replies).0, run(actions, replies).1, stores(actions, replies)),
        run(actions, replies).1 == CommandView::Finished ==> stores_match(
            stores(actions, replies),
            actions,
            actions.len() as int,
        ),
    decreases replies.len(),
{
    if replies.len() > 0 {
        let earlier = replies.drop_last();
        assert forall|j: int| 0 <= j < earlier.len() implies succeeds(
            (#[trigger] run(actions, earlier.take(j))).1,
            earlier[j],
        ) by {
            assert(earlier.take(j) =~= replies.take(j));
            assert(succeeds(run(actions, replies.take(j)).1, replies[j]));
        }
        successful_run_stores_each_action_once(actions, earlier);
        assert(replies.take(replies.len() - 1) =~= earlier);
        assert(succeeds(run(actions, replies.take(replies.len() - 1)).1, replies.last()));
    }
}

} // verus!
