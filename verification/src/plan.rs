//! The execution planner: from the files of a template tree to the actions
//! that instantiate them.

use vstd::prelude::*;
use vstd::string::*;
use crate::marker::{is_manifest, is_manifest_name, is_template, is_template_name, strip_marker, without_marker};
use crate::paths::{join, join_all, join_first, joined, joined_all};
use crate::text::texts;

verus! {

/// A file of the template tree: its path below the template root, one
/// segment for each directory and one for the file's name.
#[derive(Clone, Debug, PartialEq, Eq)]
pub struct TemplateEntry {
    pub segments: Vec<String>,
}

/// One file to produce.
#[derive(Clone, Debug, PartialEq, Eq)]
pub struct FileAction {
    /// The file in the template tree.
    pub source: String,
    /// Where its instance goes: below the destination root, with every
    /// segment rendered.
    pub destination: String,
    /// Whether the content is rendered rather than copied.
    pub is_template: bool,
}

/// A path segment that could not be rendered.
#[derive(Clone, Debug, PartialEq, Eq)]
pub struct PlanError {
    /// The segment as the template tree spells it.
    pub segment: String,
    /// The unrendered path of the file below the destination root.
    pub path: String,
    /// What the renderer said.
    pub message: String,
}

/// A file action as plain text.
pub struct ActionView {
    pub source: Seq<char>,
    pub destination: Seq<char>,
    pub is_template: bool,
}

impl View for TemplateEntry {
    type V = Seq<Seq<char>>;

    open spec fn view(&self) -> Seq<Seq<char>> {
        texts(self.segments@)
    }
}

impl View for FileAction {
    type V = ActionView;

    open spec fn view(&self) -> ActionView {
        ActionView {
            source: self.source@,
            destination: self.destination@,
            is_template: self.is_template,
        }
    }
}

/// The views of a run of entries.
pub open spec fn entry_views(entries: Seq<TemplateEntry>) -> Seq<Seq<Seq<char>>> {
    entries.map_values(|entry: TemplateEntry| entry@)
}

/// The views of a run of actions.
pub open spec fn action_views(actions: Seq<FileAction>) -> Seq<ActionView> {
    actions.map_values(|action: FileAction| action@)
}

/// The name of the file that a path leads to: its last segment.
pub open spec fn file_name(segments: Seq<Seq<char>>) -> Seq<char> {
    if segments.len() == 0 {
        Seq::empty()
    } else {
        segments.last()
    }
}

/// The file is the manifest.
pub open spec fn is_manifest_entry(segments: Seq<Seq<char>>) -> bool {
    is_manifest_name(file_name(segments))
}

/// The files that take part in instantiation: all but the manifest, in the
/// order of the tree.
pub open spec fn participating(entries: Seq<Seq<Seq<char>>>) -> Seq<Seq<Seq<char>>>
    decreases entries.len(),
{
    if entries.len() == 0 {
        Seq::empty()
    } else if is_manifest_entry(entries.last()) {
        participating(entries.drop_last())
    } else {
        participating(entries.drop_last()).push(entries.last())
    }
}

/// Where the instance of a file goes: the rendered segments below the
/// destination root, the last of them without the marker where the file's
/// own name bears it.
pub open spec fn destination_of(
    destination_root: Seq<char>,
    segments: Seq<Seq<char>>,
    rendered: Seq<Seq<char>>,
) -> Seq<char> {
    if rendered.len() > 0 && is_template_name(file_name(segments)) {
        joined(joined_all(destination_root, rendered.drop_last()), without_marker(rendered.last()))
    } else {
        joined_all(destination_root, rendered)
    }
}

/// The action for a file whose path segments were rendered as given.
pub open spec fn action_of(
    template_root: Seq<char>,
    destination_root: Seq<char>,
    segments: Seq<Seq<char>>,
    rendered: Seq<Seq<char>>,
) -> ActionView {
    ActionView {
        source: joined_all(template_root, segments),
        destination: destination_of(destination_root, segments, rendered),
        is_template: is_template_name(file_name(segments)),
    }
}

/// `actions` is the plan of a tree whose path segments were rendered as
/// `rendered` says: one action for each participating file, in the order
/// of the tree, each made from as many rendered segments as its file has.
pub open spec fn planned(
    template_root: Seq<char>,
    destination_root: Seq<char>,
    entries: Seq<Seq<Seq<char>>>,
    rendered: Seq<Seq<Seq<char>>>,
    actions: Seq<ActionView>,
) -> bool {
    let files = participating(entries);
    &&& rendered.len() == files.len()
    &&& actions.len() == files.len()
    &&& forall|i: int|
        0 <= i < files.len() ==> (#[trigger] rendered[i]).len() == files[i].len() && actions[i]
            == action_of(template_root, destination_root, files[i], rendered[i])
}

/// How a refused segment is reported: the segment and the path as the tree
/// spells them.
pub open spec fn refusal_text(segment: Seq<char>, path: Seq<char>) -> Seq<char> {
    "Failed to render path component `"@ + segment + "` of `"@ + path + "`"@
}

impl PlanError {
    /// The report of the error in one line.
    pub fn describe(&self) -> (text: String)
        ensures
            text@ == refusal_text(self.segment@, self.path@),
    {
        let mut text = "Failed to render path component `".to_owned();
        text.append(self.segment.as_str());
        text.append("` of `");
        text.append(self.path.as_str());
        text.append("`");
        text
    }
}

impl TemplateEntry {
    /// The name of the file: the last segment, or nothing where the path
    /// has no segment.
    pub fn file_name(&self) -> (name: &str)
        ensures
            name@ == file_name(self@),
    {
        if self.segments.len() == 0 {
            proof {
                reveal_strlit("");
            }
            assert(""@ =~= Seq::<char>::empty());
            ""
        } else {
            self.segments[self.segments.len() - 1].as_str()
        }
    }

    /// Whether the file is the manifest.
    pub fn is_manifest(&self) -> (found: bool)
        ensures
            found == is_manifest_entry(self@),
    {
        is_manifest(self.file_name())
    }
}

/// Makes the action for one file from its rendered path segments: the
/// source below the template root as the tree spells it, the destination
/// from the rendered segments below the destination root. A file whose
/// name bears the marker is a template, and its destination loses the
/// marker.
pub fn plan_entry(
    template_root: &str,
    destination_root: &str,
    entry: &TemplateEntry,
    rendered: &Vec<String>,
) -> (action: FileAction)
    ensures
        action@ == action_of(template_root@, destination_root@, entry@, texts(rendered@)),
{
    let source = join_all(template_root, &entry.segments);
    let is_template = is_template(entry.file_name());
    let destination = if rendered.len() > 0 && is_template {
        let last: usize = rendered.len() - 1;
        let directory = join_first(destination_root, rendered, last);
        let name = strip_marker(rendered[last].as_str());
        assert(texts(rendered@).take(last as int) =~= texts(rendered@).drop_last());
        join(directory.as_str(), name.as_str())
    } else {
        join_all(destination_root, rendered)
    };
    FileAction { source, destination, is_template }
}

/// A refused segment as plain text.
pub struct PlanErrorView {
    pub segment: Seq<char>,
    pub path: Seq<char>,
    pub message: Seq<char>,
}

impl View for PlanError {
    type V = PlanErrorView;

    open spec fn view(&self) -> PlanErrorView {
        PlanErrorView { segment: self.segment@, path: self.path@, message: self.message@ }
    }
}

/// Planning under way: it has come to a path segment and waits to be told
/// what the renderer makes of it.
#[derive(Debug)]
pub struct Planner {
    template_root: String,
    destination_root: String,
    entries: Vec<TemplateEntry>,
    file: usize,
    rendered: Vec<String>,
    actions: Vec<FileAction>,
}

/// Where planning stands.
#[derive(Debug)]
pub enum Planning {
    /// A path segment is to be rendered; the planner says which.
    Asks(Planner),
    /// Every file is planned: the actions in the order of the tree.
    Planned(Vec<FileAction>),
    /// A path segment was refused, and planning has ended.
    Refused(PlanError),
}

/// Planning under way as plain values: the roots, the files of the tree,
/// the file that planning has come to, the segments of that file rendered
/// so far, and the actions of the files before it.
pub struct PlannerView {
    pub template_root: Seq<char>,
    pub destination_root: Seq<char>,
    pub entries: Seq<Seq<Seq<char>>>,
    pub file: nat,
    pub rendered: Seq<Seq<char>>,
    pub actions: Seq<ActionView>,
}

/// Where planning stands, as plain values.
pub enum PlanningView {
    Asks(PlannerView),
    Planned(Seq<ActionView>),
    Refused(PlanErrorView),
}

impl View for Planner {
    type V = PlannerView;

    closed spec fn view(&self) -> PlannerView {
        PlannerView {
            template_root: self.template_root@,
            destination_root: self.destination_root@,
            entries: entry_views(self.entries@),
            file: self.file as nat,
            rendered: texts(self.rendered@),
            actions: action_views(self.actions@),
        }
    }
}

impl View for Planning {
    type V = PlanningView;

    open spec fn view(&self) -> PlanningView {
        match *self {
            Planning::Asks(planner) => PlanningView::Asks(planner@),
            Planning::Planned(actions) => PlanningView::Planned(action_views(actions@)),
            Planning::Refused(error) => PlanningView::Refused(error@),
        }
    }
}

/// What the renderer made of a segment, as plain text: the rendered
/// segment, or the reason of its refusal.
pub open spec fn answer_text(answer: Result<String, String>) -> Result<Seq<char>, Seq<char>> {
    match answer {
        Ok(text) => Ok(text@),
        Err(reason) => Err(reason@),
    }
}

/// The segment that planning waits for: the first of the current file that
/// is not rendered yet, as the tree spells it.
pub open spec fn pending(state: PlannerView) -> Seq<char> {
    state.entries[state.file as int][state.rendered.len() as int]
}

/// Planning goes on from a file as far as it can without the renderer. The
/// manifest is passed over. A file whose segments are all rendered gets its
/// action, and the next file is turned to. Planning stops at a segment that
/// is not rendered yet, or ends with the actions where no file is left.
pub open spec fn advanced(state: PlannerView) -> PlanningView
    decreases state.entries.len() - state.file,
{
    if state.file >= state.entries.len() {
        PlanningView::Planned(state.actions)
    } else {
        let segments = state.entries[state.file as int];
        if is_manifest_entry(segments) {
            advanced(PlannerView { file: state.file + 1, rendered: Seq::empty(), ..state })
        } else if state.rendered.len() < segments.len() {
            PlanningView::Asks(state)
        } else {
            advanced(
                PlannerView {
                    file: state.file + 1,
                    rendered: Seq::empty(),
                    actions: state.actions.push(
                        action_of(
                            state.template_root,
                            state.destination_root,
                            segments,
                            state.rendered,
                        ),
                    ),
                    ..state
                },
            )
        }
    }
}

/// Planning at its start: no file is planned and no segment rendered.
pub open spec fn begun(
    template_root: Seq<char>,
    destination_root: Seq<char>,
    entries: Seq<Seq<Seq<char>>>,
) -> PlanningView {
    advanced(
        PlannerView {
            template_root,
            destination_root,
            entries,
            file: 0,
            rendered: Seq::empty(),
            actions: Seq::empty(),
        },
    )
}

/// Planning after the renderer's answer for the pending segment. A rendered
/// segment is taken and planning goes on. A refusal ends planning: the
/// error names the pending segment and the unrendered path of its file
/// below the destination root, and holds the renderer's reason.
pub open spec fn answered(state: PlannerView, answer: Result<Seq<char>, Seq<char>>) -> PlanningView {
    match answer {
        Ok(text) => advanced(PlannerView { rendered: state.rendered.push(text), ..state }),
        Err(reason) => PlanningView::Refused(
            PlanErrorView {
                segment: pending(state),
                path: joined_all(state.destination_root, state.entries[state.file as int]),
                message: reason,
            },
        ),
    }
}

/// Goes on with planning until a segment has to be rendered or no file is
/// left.
fn advance(
    template_root: String,
    destination_root: String,
    entries: Vec<TemplateEntry>,
    file: usize,
    rendered: Vec<String>,
    actions: Vec<FileAction>,
) -> (planning: Planning)
    ensures
        planning@ == advanced(
            PlannerView {
                template_root: template_root@,
                destination_root: destination_root@,
                entries: entry_views(entries@),
                file: file as nat,
                rendered: texts(rendered@),
                actions: action_views(actions@),
            },
        ),
{
    let ghost goal = advanced(
        PlannerView {
            template_root: template_root@,
            destination_root: destination_root@,
            entries: entry_views(entries@),
            file: file as nat,
            rendered: texts(rendered@),
            actions: action_views(actions@),
        },
    );
    let mut at = file;
    let mut taken = rendered;
    let mut made = actions;
    while at < entries.len()
        invariant
            goal == advanced(
                PlannerView {
                    template_root: template_root@,
                    destination_root: destination_root@,
                    entries: entry_views(entries@),
                    file: file as nat,
                    rendered: texts(rendered@),
                    actions: action_views(actions@),
                },
            ),
            goal == advanced(
                PlannerView {
                    template_root: template_root@,
                    destination_root: destination_root@,
                    entries: entry_views(entries@),
                    file: at as nat,
                    rendered: texts(taken@),
                    actions: action_views(made@),
                },
            ),
        decreases entries@.len() - at,
    {
        let entry = &entries[at];
        assert(entry_views(entries@)[at as int] == entry@);
        if entry.is_manifest() {
            taken = Vec::new();
            assert(texts(taken@) =~= Seq::<Seq<char>>::empty());
        } else if taken.len() < entry.segments.len() {
            let planner = Planner {
                template_root,
                destination_root,
                entries,
                file: at,
                rendered: taken,
                actions: made,
            };
            assert(planner@.rendered.len() < planner@.entries[at as int].len());
            assert(goal == PlanningView::Asks(planner@));
            return Planning::Asks(planner);
        } else {
            let action = plan_entry(
                template_root.as_str(),
                destination_root.as_str(),
                entry,
                &taken,
            );
            let ghost before = action_views(made@);
            made.push(action);
            assert(action_views(made@) =~= before.push(action@));
            taken = Vec::new();
            assert(texts(taken@) =~= Seq::<Seq<char>>::empty());
        }
        at += 1;
    }
    Planning::Planned(made)
}

/// Begins to plan the instantiation of a template tree, whose files are
/// given in the order of the walk. The manifest is skipped and none of its
/// segments is ever asked for. Of every other file each path segment is
/// asked for by itself, in order; the file's action is made from the
/// rendered segments as [`plan_entry`] makes it.
pub fn plan(template_root: &str, destination_root: &str, entries: Vec<TemplateEntry>) -> (planning:
    Planning)
    ensures
        planning@ == begun(template_root@, destination_root@, entry_views(entries@)),
{
    let rendered: Vec<String> = Vec::new();
    let actions: Vec<FileAction> = Vec::new();
    assert(texts(rendered@) =~= Seq::<Seq<char>>::empty());
    assert(action_views(actions@) =~= Seq::<ActionView>::empty());
    advance(template_root.to_owned(), destination_root.to_owned(), entries, 0, rendered, actions)
}

impl Planner {
    #[verifier::type_invariant]
    spec fn well_formed(self) -> bool {
        &&& self.file < self.entries@.len()
        &&& self.rendered@.len() < self.entries@[self.file as int].segments@.len()
    }

    /// The segment that is to be rendered, as the tree spells it.
    pub fn segment(&self) -> (segment: &str)
        ensures
            segment@ == pending(self@),
    {
        proof {
            use_type_invariant(self);
        }
        self.entries[self.file].segments[self.rendered.len()].as_str()
    }

    /// Takes what the renderer made of the pending segment and goes on.
    pub fn answer(self, answer: Result<String, String>) -> (planning: Planning)
        ensures
            planning@ == answered(self@, answer_text(answer)),
    {
        proof {
            use_type_invariant(&self);
        }
        let Planner { template_root, destination_root, entries, file, rendered, actions } = self;
        match answer {
            Ok(text) => {
                let mut rendered = rendered;
                let ghost before = texts(rendered@);
                rendered.push(text);
                assert(texts(rendered@) =~= before.push(text@));
                advance(template_root, destination_root, entries, file, rendered, actions)
            },
            Err(reason) => {
                let entry = &entries[file];
                assert(entry_views(entries@)[file as int] == entry@);
                Planning::Refused(
                    PlanError {
                        segment: entry.segments[rendered.len()].clone(),
                        path: join_all(destination_root.as_str(), &entry.segments),
                        message: reason,
                    },
                )
            },
        }
    }
}

/// Planning after the renderer's answers have been given in turn. Answers
/// that are left over once planning has ended are not looked at.
pub open spec fn run(planning: PlanningView, answers: Seq<Result<Seq<char>, Seq<char>>>) -> PlanningView
    decreases answers.len(),
{
    if answers.len() == 0 {
        planning
    } else {
        match run(planning, answers.drop_last()) {
            PlanningView::Asks(state) => answered(state, answers.last()),
            over => over,
        }
    }
}

/// `actions` is the plan of the tree for some way in which the path
/// segments may have been rendered.
pub open spec fn is_plan(
    template_root: Seq<char>,
    destination_root: Seq<char>,
    entries: Seq<Seq<Seq<char>>>,
    actions: Seq<ActionView>,
) -> bool {
    exists|rendered: Seq<Seq<Seq<char>>>| #[trigger]
        planned(template_root, destination_root, entries, rendered, actions)
}

/// The error names a segment of a participating file of the tree as the
/// tree spells it, and the file's unrendered path below the destination
/// root.
pub open spec fn is_refusal(
    destination_root: Seq<char>,
    entries: Seq<Seq<Seq<char>>>,
    error: PlanErrorView,
) -> bool {
    exists|i: int, k: int| #[trigger] refused_at(destination_root, entries, i, k, error)
}

/// The error names segment `k` of file `i`, a participating file, and the
/// file's unrendered path below the destination root.
pub open spec fn refused_at(
    destination_root: Seq<char>,
    entries: Seq<Seq<Seq<char>>>,
    i: int,
    k: int,
    error: PlanErrorView,
) -> bool {
    &&& 0 <= i < entries.len()
    &&& !is_manifest_entry(entries[i])
    &&& 0 <= k < entries[i].len()
    &&& error.segment == entries[i][k]
    &&& error.path == joined_all(destination_root, entries[i])
}

/// Planning of the tree is under way and in order: the files before the
/// current one are planned, and of the current one, which is not the
/// manifest, a segment is pending.
pub open spec fn steady(
    state: PlannerView,
    template_root: Seq<char>,
    destination_root: Seq<char>,
    entries: Seq<Seq<Seq<char>>>,
) -> bool {
    &&& state.template_root == template_root
    &&& state.destination_root == destination_root
    &&& state.entries == entries
    &&& state.file < entries.len()
    &&& !is_manifest_entry(entries[state.file as int])
    &&& state.rendered.len() < entries[state.file as int].len()
    &&& is_plan(template_root, destination_root, entries.take(state.file as int), state.actions)
}

/// Planning has ended well or is in order: its actions are a plan of the
/// tree, its error names a segment of a participating file, or it is
/// steady.
pub open spec fn sound(
    planning: PlanningView,
    template_root: Seq<char>,
    destination_root: Seq<char>,
    entries: Seq<Seq<Seq<char>>>,
) -> bool {
    match planning {
        PlanningView::Asks(state) => steady(state, template_root, destination_root, entries),
        PlanningView::Planned(actions) => is_plan(template_root, destination_root, entries, actions),
        PlanningView::Refused(error) => is_refusal(destination_root, entries, error),
    }
}

/// Going on from files that are planned keeps planning sound.
proof fn advancing_is_sound(state: PlannerView)
    requires
        state.file <= state.entries.len(),
        state.file < state.entries.len() ==> state.rendered.len()
            <= state.entries[state.file as int].len(),
        is_plan(
            state.template_root,
            state.destination_root,
            state.entries.take(state.file as int),
            state.actions,
        ),
    ensures
        sound(advanced(state), state.template_root, state.destination_root, state.entries),
    decreases state.entries.len() - state.file,
{
    let entries = state.entries;
    let file = state.file as int;
    let done = entries.take(file);
    let rendered = choose|rendered: Seq<Seq<Seq<char>>>| #[trigger]
        planned(state.template_root, state.destination_root, done, rendered, state.actions);
    if file >= entries.len() {
        assert(done =~= entries);
    } else {
        let segments = entries[file];
        let more = entries.take(file + 1);
        assert(more.drop_last() =~= done);
        assert(more.last() == segments);
        if is_manifest_entry(segments) {
            let next = PlannerView { file: state.file + 1, rendered: Seq::empty(), ..state };
            assert(planned(
                state.template_root,
                state.destination_root,
                more,
                rendered,
                state.actions,
            ));
            advancing_is_sound(next);
        } else if state.rendered.len() < segments.len() {
        } else {
            let action = action_of(
                state.template_root,
                state.destination_root,
                segments,
                state.rendered,
            );
            let next = PlannerView {
                file: state.file + 1,
                rendered: Seq::empty(),
                actions: state.actions.push(action),
                ..state
            };
            let all = rendered.push(state.rendered);
            assert(participating(more) == participating(done).push(segments));
            assert(planned(
                state.template_root,
                state.destination_root,
                more,
                all,
                next.actions,
            ));
            advancing_is_sound(next);
        }
    }
}

/// An answer keeps steady planning sound.
proof fn answering_is_sound(state: PlannerView, answer: Result<Seq<char>, Seq<char>>)
    requires
        steady(state, state.template_root, state.destination_root, state.entries),
    ensures
        sound(answered(state, answer), state.template_root, state.destination_root, state.entries),
{
    match answer {
        Ok(text) => {
            advancing_is_sound(PlannerView { rendered: state.rendered.push(text), ..state });
        },
        Err(reason) => {
            let error = answered(state, answer)->Refused_0;
            assert(refused_at(
                state.destination_root,
                state.entries,
                state.file as int,
                state.rendered.len() as int,
                error,
            ));
        },
    }
}

/// However the renderer answers, planning of a tree stays sound. Where it
/// ends well, there is one action for each file but the manifest, in the
/// order of the tree, each made from as many rendered segments as its file
/// has. Where it ends in a refusal, the error names a segment of such a
/// file as the tree spells it, and the file's path.
pub proof fn planning_is_sound(
    template_root: Seq<char>,
    destination_root: Seq<char>,
    entries: Seq<Seq<Seq<char>>>,
    answers: Seq<Result<Seq<char>, Seq<char>>>,
)
    ensures
        sound(
            run(begun(template_root, destination_root, entries), answers),
            template_root,
            destination_root,
            entries,
        ),
    decreases answers.len(),
{
    if answers.len() == 0 {
        let first = PlannerView {
            template_root,
            destination_root,
            entries,
            file: 0,
            rendered: Seq::empty(),
            actions: Seq::empty(),
        };
        assert(planned(
            template_root,
            destination_root,
            entries.take(0),
            Seq::<Seq<Seq<char>>>::empty(),
            first.actions,
        ));
        advancing_is_sound(first);
    } else {
        planning_is_sound(template_root, destination_root, entries, answers.drop_last());
        match run(begun(template_root, destination_root, entries), answers.drop_last()) {
            PlanningView::Asks(state) => {
                answering_is_sound(state, answers.last());
            },
            _ => {},
        }
    }
}

/// Planning is determined by the template tree, the two roots and what the
/// renderer made of each path segment: two plans of one tree from the same
/// rendered segments hold the same actions in the same order.
pub proof fn plan_is_determined(
    template_root: Seq<char>,
    destination_root: Seq<char>,
    entries: Seq<Seq<Seq<char>>>,
    rendered: Seq<Seq<Seq<char>>>,
    first: Seq<ActionView>,
    second: Seq<ActionView>,
)
    requires
        planned(template_root, destination_root, entries, rendered, first),
        planned(template_root, destination_root, entries, rendered, second),
    ensures
        first == second,
{
    assert forall|i: int| 0 <= i < first.len() implies first[i] == second[i] by {
        assert(rendered[i].len() == participating(entries)[i].len());
    }
    assert(first =~= second);
}

/// The manifest never becomes an action: no participating file is one, and
/// every file that is none takes part.
pub proof fn manifest_takes_no_part(entries: Seq<Seq<Seq<char>>>)
    ensures
        forall|i: int|
            0 <= i < participating(entries).len() ==> !is_manifest_entry(
                #[trigger] participating(entries)[i],
            ),
        forall|i: int|
            0 <= i < entries.len() && !is_manifest_entry(#[trigger] entries[i])
                ==> participating(entries).contains(entries[i]),
    decreases entries.len(),
{
    if entries.len() > 0 {
        let rest = entries.drop_last();
        manifest_takes_no_part(rest);
        assert forall|i: int|
            0 <= i < entries.len() && !is_manifest_entry(
                #[trigger] entries[i],
            ) implies participating(entries).contains(entries[i]) by {
            if i < rest.len() {
                assert(rest[i] == entries[i]);
                let at = participating(rest).index_of(entries[i]);
                assert(participating(entries)[at] == entries[i]);
            } else {
                assert(participating(entries)[participating(rest).len() as int] == entries[i]);
            }
        }
    }
}

} // verus!
