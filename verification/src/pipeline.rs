//! The compilation run, as a machine that is told what happened and says what
//! to do next.
//!
//! Compiling the stylesheets of a site means creating directories, walking the
//! asset directory, calling the compiler and writing files. None of that is
//! done here. A [`CompileRun`] holds what a run has found and done so far and
//! names, as its pending [`Action`], the one thing to do next. Whoever drives
//! the run performs that action and reports the outcome as an [`Event`];
//! [`CompileRun::step`] then decides how the run goes on.
//!
//! A run creates the output directory, hands out the configuration, asks for
//! the entries under the asset directory and picks the stylesheets among
//! them. Each stylesheet is compiled, the directory of its output is created,
//! and the output is written. When all are written the
//! outputs are checked for collisions. The first failure ends the run.

use vstd::prelude::*;
use crate::collision::{
    has_collision, is_reported_collision, outputs_of, reported_collision_is_unique,
    some_collision_is_reported, validate, CollisionModel, CompiledModel, CompiledOutput,
};
use crate::discovery::{
    chosen_paths, entries_of, get_non_partial_scss, is_stylesheet_path, WalkEntry, WalkEntryModel,
};
use crate::error::{SassError, SassErrorModel};
use crate::path::{paths_of, with_extension, SassPath};
use crate::value::{ConfigModel, ConfigurationValue};

verus! {

/// How the compiler lays out what it writes.
#[derive(Clone, Copy, Debug, PartialEq, Eq, Structural)]
pub enum OutputStyle {
    Expanded,
    Compressed,
}

/// The name under which stylesheets call for the configuration.
pub open spec fn config_function_name() -> Seq<char> {
    "zola-config"@
}

/// What the driver of a run is asked to do.
#[derive(Debug, PartialEq, Eq)]
pub enum Action {
    /// Create the output directory, if it is not there yet.
    CreateDirectory { path: SassPath },
    /// Make `config` the configuration that stylesheets can ask for.
    SetCurrentConfig { config: ConfigurationValue },
    /// Walk the directory `root` and report every entry found, the root
    /// first: each with its path, which is the path of `root` followed by
    /// the names that lead to the entry, and with whether it is a file. A
    /// directory that is a partial need not be entered.
    ListEntries { root: SassPath },
    /// Compile the stylesheet `file` and lay the output out in `style`. While
    /// it is compiled, a call of the function `config_function` without
    /// arguments gives the current configuration.
    Compile { file: SassPath, style: OutputStyle, config_function: String },
    /// Create the directory `path` and those above it that are missing.
    CreateParentDirectories { path: SassPath },
    /// Write `css` to the file `path`, replacing what the file held.
    WriteFile { path: SassPath, css: String },
    /// Nothing more: the run has ended with `result`.
    Finish { result: Result<(), SassError> },
}

/// The content of an [`Action`].
pub enum ActionModel {
    CreateDirectory { path: Seq<Seq<char>> },
    SetCurrentConfig { config: ConfigModel },
    ListEntries { root: Seq<Seq<char>> },
    Compile { file: Seq<Seq<char>>, style: OutputStyle, config_function: Seq<char> },
    CreateParentDirectories { path: Seq<Seq<char>> },
    WriteFile { path: Seq<Seq<char>>, css: Seq<char> },
    Finish { result: Result<(), SassErrorModel> },
}

impl View for Action {
    type V = ActionModel;

    open spec fn view(&self) -> ActionModel {
        match self {
            Action::CreateDirectory { path } => ActionModel::CreateDirectory { path: path@ },
            Action::SetCurrentConfig { config } => ActionModel::SetCurrentConfig {
                config: config@,
            },
            Action::ListEntries { root } => ActionModel::ListEntries { root: root@ },
            Action::Compile { file, style, config_function } => ActionModel::Compile {
                file: file@,
                style: *style,
                config_function: config_function@,
            },
            Action::CreateParentDirectories { path } => ActionModel::CreateParentDirectories {
                path: path@,
            },
            Action::WriteFile { path, css } => ActionModel::WriteFile { path: path@, css: css@ },
            Action::Finish { result } => ActionModel::Finish {
                result: match result {
                    Ok(_) => Ok(()),
                    Err(error) => Err(error@),
                },
            },
        }
    }
}

/// What the driver of a run reports back.
#[derive(Debug, PartialEq, Eq)]
pub enum Event {
    /// The action was carried out.
    Succeeded,
    /// The action failed. `cause` is what the compiler or the system said.
    Failed { cause: String },
    /// The walk is over. `entries` are the entries it found, files and
    /// directories, in its order; a directory that does not exist has none.
    Entries { entries: Vec<WalkEntry> },
    /// The stylesheet was compiled to `css`.
    Compiled { css: String },
}

/// The content of an [`Event`].
pub enum EventModel {
    Succeeded,
    Failed { cause: Seq<char> },
    Entries { entries: Seq<WalkEntryModel> },
    Compiled { css: Seq<char> },
}

impl View for Event {
    type V = EventModel;

    open spec fn view(&self) -> EventModel {
        match self {
            Event::Succeeded => EventModel::Succeeded,
            Event::Failed { cause } => EventModel::Failed { cause: cause@ },
            Event::Entries { entries } => EventModel::Entries { entries: entries_of(entries@) },
            Event::Compiled { css } => EventModel::Compiled { css: css@ },
        }
    }
}

/// The state of a run.
pub struct RunModel {
    /// The asset directory: where the stylesheets are looked for.
    pub sass_path: Seq<Seq<char>>,
    /// The output directory: below it the outputs are written.
    pub output_path: Seq<Seq<char>>,
    /// The configuration of the site.
    pub config: ConfigModel,
    /// The stylesheets to compile, in the order of the walk.
    pub files: Seq<Seq<Seq<char>>>,
    /// One record for each stylesheet whose output has been written, in the
    /// order of `files`.
    pub compiled: Seq<CompiledModel>,
    /// The output of the stylesheet that is being worked on.
    pub css: Seq<char>,
    /// What is to be done next.
    pub pending: ActionModel,
}

/// The path of a stylesheet inside the asset directory.
pub open spec fn path_inside(sass_path: Seq<Seq<char>>, file: Seq<Seq<char>>) -> Seq<Seq<char>> {
    file.skip(sass_path.len() as int)
}

/// The record of a stylesheet: its path inside the asset directory, and the
/// same path below the output directory with the extension `css`.
pub open spec fn record_for(
    sass_path: Seq<Seq<char>>,
    output_path: Seq<Seq<char>>,
    file: Seq<Seq<char>>,
) -> CompiledModel {
    CompiledModel {
        source: path_inside(sass_path, file),
        output: with_extension(output_path + path_inside(sass_path, file), "css"@),
    }
}

/// The collision to report for `records`, where there is one.
pub open spec fn reported_collision(records: Seq<CompiledModel>) -> CollisionModel {
    choose|collision: CollisionModel| is_reported_collision(records, collision)
}

/// What is to be done when a run turns to its next stylesheet: compile it,
/// or, when none is left, end the run with the outcome of the collision
/// check.
pub open spec fn after_file(files: Seq<Seq<Seq<char>>>, compiled: Seq<CompiledModel>) -> ActionModel {
    if compiled.len() < files.len() {
        ActionModel::Compile {
            file: files[compiled.len() as int],
            style: OutputStyle::Compressed,
            config_function: config_function_name(),
        }
    } else if has_collision(compiled) {
        ActionModel::Finish {
            result: Err(SassErrorModel::OutputCollision { collision: reported_collision(compiled) }),
        }
    } else {
        ActionModel::Finish { result: Ok(()) }
    }
}

/// The run that has ended with `error`.
pub open spec fn failed(run: RunModel, error: SassErrorModel) -> RunModel {
    RunModel { pending: ActionModel::Finish { result: Err(error) }, ..run }
}

/// The run at its start: nothing found, nothing compiled, and the output
/// directory to be created. The asset directory is `sass` below the base.
pub open spec fn initial_run(
    base_path: Seq<Seq<char>>,
    output_path: Seq<Seq<char>>,
    config: ConfigModel,
) -> RunModel {
    RunModel {
        sass_path: base_path.push("sass"@),
        output_path,
        config,
        files: Seq::empty(),
        compiled: Seq::empty(),
        css: Seq::empty(),
        pending: ActionModel::CreateDirectory { path: output_path },
    }
}

/// How a run goes on when `event` is reported. An event that is no answer to
/// the pending action changes nothing, and a run that has ended stays as it
/// is.
pub open spec fn step_model(run: RunModel, event: EventModel) -> RunModel {
    match (run.pending, event) {
        (ActionModel::CreateDirectory { path }, EventModel::Succeeded) => RunModel {
            pending: ActionModel::SetCurrentConfig { config: run.config },
            ..run
        },
        (ActionModel::CreateDirectory { path }, EventModel::Failed { cause }) => failed(
            run,
            SassErrorModel::Io { path, cause },
        ),
        (ActionModel::SetCurrentConfig { config }, EventModel::Succeeded) => RunModel {
            pending: ActionModel::ListEntries { root: run.sass_path },
            ..run
        },
        (ActionModel::ListEntries { root }, EventModel::Entries { entries }) => {
            let found = RunModel {
                files: chosen_paths(run.sass_path, entries),
                ..run
            };
            RunModel { pending: after_file(found.files, found.compiled), ..found }
        },
        (ActionModel::Compile { file, .. }, EventModel::Compiled { css }) => {
            let record = record_for(run.sass_path, run.output_path, file);
            RunModel {
                css,
                pending: ActionModel::CreateParentDirectories { path: record.output.drop_last() },
                ..run
            }
        },
        (ActionModel::Compile { file, .. }, EventModel::Failed { cause }) => failed(
            run,
            SassErrorModel::Compiler { source: file, message: cause },
        ),
        (ActionModel::CreateParentDirectories { path }, EventModel::Succeeded) => RunModel {
            pending: ActionModel::WriteFile {
                path: record_for(
                    run.sass_path,
                    run.output_path,
                    run.files[run.compiled.len() as int],
                ).output,
                css: run.css,
            },
            ..run
        },
        (ActionModel::CreateParentDirectories { path }, EventModel::Failed { cause }) => failed(
            run,
            SassErrorModel::Io { path, cause },
        ),
        (ActionModel::WriteFile { path, css }, EventModel::Succeeded) => {
            let written = RunModel {
                compiled: run.compiled.push(
                    record_for(
                        run.sass_path,
                        run.output_path,
                        run.files[run.compiled.len() as int],
                    ),
                ),
                ..run
            };
            RunModel { pending: after_file(written.files, written.compiled), ..written }
        },
        (ActionModel::WriteFile { path, css }, EventModel::Failed { cause }) => failed(
            run,
            SassErrorModel::Io { path, cause },
        ),
        _ => run,
    }
}

/// What holds of a run at every moment.
///
/// The stylesheets to compile lie below the asset directory and have the
/// names of stylesheets; they are files that the walk reported as such, since
/// only those are ever chosen. The records are those of the first
/// stylesheets, one each and in order. The pending action fits them: what is
/// compiled or written is the stylesheet after the last record. A run ends well only when every
/// stylesheet has its record and no two records collide. It ends with a
/// collision only when every stylesheet has its record, and the collision is
/// the one to report. It ends with a compiler error only for the stylesheet
/// that was being compiled.
pub open spec fn run_wf(run: RunModel) -> bool {
    &&& forall|k: int|
        0 <= k < run.files.len() ==> is_stylesheet_path(run.sass_path, #[trigger] run.files[k])
    &&& run.compiled.len() <= run.files.len()
    &&& forall|k: int|
        0 <= k < run.compiled.len() ==> #[trigger] run.compiled[k] == record_for(
            run.sass_path,
            run.output_path,
            run.files[k],
        )
    &&& match run.pending {
        ActionModel::CreateDirectory { path } => {
            &&& path == run.output_path
            &&& run.files.len() == 0
        },
        ActionModel::SetCurrentConfig { config } => {
            &&& config == run.config
            &&& run.files.len() == 0
        },
        ActionModel::ListEntries { root } => {
            &&& root == run.sass_path
            &&& run.files.len() == 0
        },
        ActionModel::Compile { file, style, config_function } => {
            &&& run.compiled.len() < run.files.len()
            &&& file == run.files[run.compiled.len() as int]
            &&& style == OutputStyle::Compressed
            &&& config_function == config_function_name()
        },
        ActionModel::CreateParentDirectories { path } => {
            &&& run.compiled.len() < run.files.len()
            &&& path == record_for(
                run.sass_path,
                run.output_path,
                run.files[run.compiled.len() as int],
            ).output.drop_last()
        },
        ActionModel::WriteFile { path, css } => {
            &&& run.compiled.len() < run.files.len()
            &&& path == record_for(
                run.sass_path,
                run.output_path,
                run.files[run.compiled.len() as int],
            ).output
            &&& css == run.css
        },
        ActionModel::Finish { result } => match result {
            Ok(_) => run.compiled.len() == run.files.len() && !has_collision(run.compiled),
            Err(SassErrorModel::OutputCollision { collision }) => {
                &&& run.compiled.len() == run.files.len()
                &&& is_reported_collision(run.compiled, collision)
            },
            Err(SassErrorModel::Compiler { source, message }) => {
                &&& run.compiled.len() < run.files.len()
                &&& source == run.files[run.compiled.len() as int]
            },
            Err(SassErrorModel::Io { path, cause }) => true,
        },
    }
}

/// A run starts in a state of which [`run_wf`] holds.
pub proof fn initial_run_is_wf(
    base_path: Seq<Seq<char>>,
    output_path: Seq<Seq<char>>,
    config: ConfigModel,
)
    ensures
        run_wf(initial_run(base_path, output_path, config)),
{
}

/// Whatever is reported, [`run_wf`] goes on holding.
pub proof fn step_preserves_wf(run: RunModel, event: EventModel)
    requires
        run_wf(run),
    ensures
        run_wf(step_model(run, event)),
{
    if run.pending is WriteFile && event is Succeeded {
        lemma_after_file_is_wf(
            RunModel {
                compiled: run.compiled.push(
                    record_for(
                        run.sass_path,
                        run.output_path,
                        run.files[run.compiled.len() as int],
                    ),
                ),
                ..run
            },
        );
    }
}

/// The output of a stylesheet lies below the output directory at the place
/// where the stylesheet lies below the asset directory: the target is the
/// output directory followed by the path inside the asset directory, with
/// the extension of the last name replaced.
pub proof fn output_mirrors_source(
    sass_path: Seq<Seq<char>>,
    output_path: Seq<Seq<char>>,
    file: Seq<Seq<char>>,
)
    requires
        sass_path.is_prefix_of(file),
        file.len() > sass_path.len(),
    ensures
        file == sass_path + record_for(sass_path, output_path, file).source,
        record_for(sass_path, output_path, file).output == output_path + with_extension(
            record_for(sass_path, output_path, file).source,
            "css"@,
        ),
{
}

/// The configuration of a run never changes, and it is handed out once: only
/// a run that has just created its output directory turns to handing it
/// out, and so before anything is listed or compiled.
pub proof fn config_is_handed_out_once(run: RunModel, event: EventModel)
    ensures
        step_model(run, event).config == run.config,
        step_model(run, event).pending is SetCurrentConfig ==> run.pending is CreateDirectory
            || run.pending is SetCurrentConfig,
        run.pending is CreateDirectory && event is Succeeded ==> step_model(run, event).pending
            == (ActionModel::SetCurrentConfig { config: run.config }),
{
}

/// A failure ends the run, and the error says what failed. Where the compiler
/// failed the error names the stylesheet and carries what the compiler said.
/// Where a directory or a file could not be made the error names it and
/// carries what the system said.
pub proof fn a_failure_ends_the_run(run: RunModel, cause: Seq<char>)
    ensures
        match run.pending {
            ActionModel::CreateDirectory { path } => step_model(
                run,
                EventModel::Failed { cause },
            ).pending == (ActionModel::Finish { result: Err(SassErrorModel::Io { path, cause }) }),
            ActionModel::Compile { file, .. } => step_model(
                run,
                EventModel::Failed { cause },
            ).pending == (ActionModel::Finish {
                result: Err(SassErrorModel::Compiler { source: file, message: cause }),
            }),
            ActionModel::CreateParentDirectories { path } => step_model(
                run,
                EventModel::Failed { cause },
            ).pending == (ActionModel::Finish { result: Err(SassErrorModel::Io { path, cause }) }),
            ActionModel::WriteFile { path, css } => step_model(
                run,
                EventModel::Failed { cause },
            ).pending == (ActionModel::Finish { result: Err(SassErrorModel::Io { path, cause }) }),
            _ => true,
        },
        step_model(run, EventModel::Failed { cause }).compiled == run.compiled,
{
}

/// A run that has ended stays as it is, whatever is reported: after a failure
/// nothing more is compiled or written.
pub proof fn an_ended_run_stays(run: RunModel, event: EventModel)
    requires
        run.pending is Finish,
    ensures
        step_model(run, event) == run,
{
}

/// A record is added only when a file has been written, and then it is the
/// record of the stylesheet that was being worked on. No record is ever
/// dropped or changed.
pub proof fn records_grow_with_written_files(run: RunModel, event: EventModel)
    ensures
        run.pending is WriteFile && event is Succeeded ==> step_model(run, event).compiled
            == run.compiled.push(
            record_for(run.sass_path, run.output_path, run.files[run.compiled.len() as int]),
        ),
        !(run.pending is WriteFile && event is Succeeded) ==> step_model(run, event).compiled
            == run.compiled,
{
}

/// A run that ended well has one record for each stylesheet, in the order of
/// the walk, and no two records share a target. Each record holds the path of
/// the stylesheet inside the asset directory and, as its target, the same
/// path below the output directory with the extension `css`.
pub proof fn a_good_end_has_every_record(run: RunModel)
    requires
        run_wf(run),
        run.pending == (ActionModel::Finish { result: Ok(()) }),
    ensures
        run.compiled == Seq::new(
            run.files.len(),
            |k: int| record_for(run.sass_path, run.output_path, run.files[k]),
        ),
        !has_collision(run.compiled),
{
}

/// What a run meets outside itself: the tree under the asset directory, as
/// the entries that a walk of it reports, and the compiler, as what it makes
/// of a stylesheet while a given configuration is at hand: the output, or
/// what it says when it fails. Directories and files can always be created.
pub struct World {
    pub entries: Seq<WalkEntryModel>,
    pub compile: spec_fn(Seq<Seq<char>>, ConfigModel) -> Result<Seq<char>, Seq<char>>,
}

/// What is reported to a run in a world when its pending action is done.
pub open spec fn answer(world: World, run: RunModel) -> EventModel {
    match run.pending {
        ActionModel::ListEntries { root } => EventModel::Entries { entries: world.entries },
        ActionModel::Compile { file, .. } => match (world.compile)(file, run.config) {
            Ok(css) => EventModel::Compiled { css },
            Err(cause) => EventModel::Failed { cause },
        },
        _ => EventModel::Succeeded,
    }
}

/// The run after `steps` of its actions were done in a world.
pub open spec fn run_on(world: World, run: RunModel, steps: nat) -> RunModel
    decreases steps,
{
    if steps == 0 {
        run
    } else {
        run_on(world, step_model(run, answer(world, run)), (steps - 1) as nat)
    }
}

/// The files written while `steps` of the actions of a run were done in a
/// world: for each, its path and what was written to it, in order.
pub open spec fn written_on(world: World, run: RunModel, steps: nat) -> Seq<
    (Seq<Seq<char>>, Seq<char>),
>
    decreases steps,
{
    if steps == 0 {
        Seq::empty()
    } else {
        let rest = written_on(world, step_model(run, answer(world, run)), (steps - 1) as nat);
        match run.pending {
            ActionModel::WriteFile { path, css } => seq![(path, css)] + rest,
            _ => rest,
        }
    }
}

/// Whether two worlds are alike for the runs on the asset directory `root`
/// with the configuration `config`: the walk reports the same entries, and
/// the compiler makes the same of every path that has the names of a
/// stylesheet below the root.
pub open spec fn same_for_runs(
    one: World,
    other: World,
    root: Seq<Seq<char>>,
    config: ConfigModel,
) -> bool {
    &&& one.entries == other.entries
    &&& forall|file: Seq<Seq<char>>| #[trigger]
        is_stylesheet_path(root, file) ==> (one.compile)(file, config) == (other.compile)(
            file,
            config,
        )
}

/// Two runs from the same state go the same way in worlds that are alike for
/// them.
proof fn lemma_runs_agree(one: World, other: World, run: RunModel, steps: nat)
    requires
        run_wf(run),
        same_for_runs(one, other, run.sass_path, run.config),
    ensures
        run_on(one, run, steps) == run_on(other, run, steps),
        written_on(one, run, steps) == written_on(other, run, steps),
    decreases steps,
{
    if steps > 0 {
        let event = answer(one, run);
        assert(event == answer(other, run)) by {
            if run.pending is Compile {
                assert(is_stylesheet_path(run.sass_path, run.files[run.compiled.len() as int]));
            }
        }
        step_preserves_wf(run, event);
        config_is_handed_out_once(run, event);
        lemma_runs_agree(one, other, step_model(run, event), (steps - 1) as nat);
    }
}

/// Two whole runs with the same inputs give the same result and write the
/// same files with the same content.
///
/// The inputs are the site, the output directory and the configuration; the
/// tree under the asset directory; and the compiler, as far as it is asked:
/// for the stylesheets below the asset directory, with this configuration.
/// However many actions are done, the two runs are then in the same state,
/// with the same pending action, and so with the same result once they have
/// ended, and the same files have been written, name for name and character
/// for character.
pub proof fn whole_runs_agree(
    base_path: Seq<Seq<char>>,
    output_path: Seq<Seq<char>>,
    config: ConfigModel,
    one: World,
    other: World,
    steps: nat,
)
    requires
        same_for_runs(one, other, base_path.push("sass"@), config),
    ensures
        run_on(one, initial_run(base_path, output_path, config), steps) == run_on(
            other,
            initial_run(base_path, output_path, config),
            steps,
        ),
        written_on(one, initial_run(base_path, output_path, config), steps) == written_on(
            other,
            initial_run(base_path, output_path, config),
            steps,
        ),
{
    lemma_runs_agree(one, other, initial_run(base_path, output_path, config), steps);
}

/// How many actions a run that has its stylesheets can still ask for, at
/// most: three for each stylesheet that has no record yet, less those already
/// done for the one that is being worked on.
pub open spec fn actions_left(run: RunModel) -> int {
    let files_left = run.files.len() - run.compiled.len();
    match run.pending {
        ActionModel::Compile { .. } => 3 * files_left,
        ActionModel::CreateParentDirectories { .. } => 3 * files_left - 1,
        ActionModel::WriteFile { .. } => 3 * files_left - 2,
        _ => 0,
    }
}

/// A run keeps [`run_wf`] through any number of actions.
proof fn lemma_run_on_is_wf(world: World, run: RunModel, steps: nat)
    requires
        run_wf(run),
    ensures
        run_wf(run_on(world, run, steps)),
    decreases steps,
{
    if steps > 0 {
        step_preserves_wf(run, answer(world, run));
        lemma_run_on_is_wf(world, step_model(run, answer(world, run)), (steps - 1) as nat);
    }
}

/// A run that has its stylesheets ends after the actions it can still ask
/// for, and then stays ended.
proof fn lemma_file_loop_ends(world: World, run: RunModel, steps: nat)
    requires
        run_wf(run),
        !(run.pending is CreateDirectory),
        !(run.pending is SetCurrentConfig),
        !(run.pending is ListEntries),
        steps >= actions_left(run),
    ensures
        run_on(world, run, steps).pending is Finish,
    decreases steps,
{
    if steps > 0 {
        let next = step_model(run, answer(world, run));
        step_preserves_wf(run, answer(world, run));
        lemma_file_loop_ends(world, next, (steps - 1) as nat);
    }
}

/// A whole run ends. Three actions lead up to the stylesheets and three are
/// done for each, so that after three more than three times the number of
/// stylesheets the run has ended; it may have ended before, on a failure.
/// However many actions are asked of a run that has ended, it stays as it
/// is.
pub proof fn a_whole_run_ends(
    base_path: Seq<Seq<char>>,
    output_path: Seq<Seq<char>>,
    config: ConfigModel,
    world: World,
    steps: nat,
)
    requires
        steps >= 3 + 3 * chosen_paths(base_path.push("sass"@), world.entries).len(),
    ensures
        run_on(world, initial_run(base_path, output_path, config), steps).pending is Finish,
        run_wf(run_on(world, initial_run(base_path, output_path, config), steps)),
{
    let start = initial_run(base_path, output_path, config);
    lemma_run_on_is_wf(world, start, steps);
    let created = step_model(start, answer(world, start));
    let handed = step_model(created, answer(world, created));
    let listed = step_model(handed, answer(world, handed));
    assert(run_on(world, start, steps) == run_on(world, listed, (steps - 3) as nat)) by {
        reveal_with_fuel(run_on, 4);
    }
    lemma_file_loop_ends(world, listed, (steps - 3) as nat);
}

/// Turning to the next stylesheet keeps [`run_wf`], whatever was pending.
proof fn lemma_after_file_is_wf(run: RunModel)
    requires
        forall|k: int|
            0 <= k < run.files.len() ==> is_stylesheet_path(run.sass_path, #[trigger] run.files[k]),
        run.compiled.len() <= run.files.len(),
        forall|k: int|
            0 <= k < run.compiled.len() ==> #[trigger] run.compiled[k] == record_for(
                run.sass_path,
                run.output_path,
                run.files[k],
            ),
    ensures
        run_wf(RunModel { pending: after_file(run.files, run.compiled), ..run }),
{
    if run.compiled.len() == run.files.len() && has_collision(run.compiled) {
        lemma_collision_is_reported(run.compiled);
    }
}

/// Where records collide there is a collision to report.
proof fn lemma_collision_is_reported(records: Seq<CompiledModel>)
    requires
        has_collision(records),
    ensures
        is_reported_collision(records, reported_collision(records)),
{
    let collision = some_collision_is_reported(records);
}

/// A compilation run: what it has found and done, and what is to be done
/// next.
#[derive(Debug)]
pub struct CompileRun {
    sass_path: SassPath,
    output_path: SassPath,
    config: ConfigurationValue,
    files: Vec<SassPath>,
    compiled_paths: Vec<CompiledOutput>,
    css: String,
    pending: Action,
}

impl View for CompileRun {
    type V = RunModel;

    closed spec fn view(&self) -> RunModel {
        RunModel {
            sass_path: self.sass_path@,
            output_path: self.output_path@,
            config: self.config@,
            files: paths_of(self.files@),
            compiled: outputs_of(self.compiled_paths@),
            css: self.css@,
            pending: self.pending@,
        }
    }
}

/// Makes the record of a stylesheet that lies below the asset directory.
fn make_record(sass_path: &SassPath, output_path: &SassPath, file: &SassPath) -> (record:
    CompiledOutput)
    requires
        sass_path@.is_prefix_of(file@),
    ensures
        record@ == record_for(sass_path@, output_path@, file@),
{
    let path_inside_sass = file.strip_prefix(sass_path).unwrap();
    let css_output_path = output_path.join(&path_inside_sass).with_extension("css");
    CompiledOutput { source: path_inside_sass, output: css_output_path }
}

/// Says what to do when a run turns to its next stylesheet.
fn next_action(files: &Vec<SassPath>, compiled_paths: &Vec<CompiledOutput>) -> (action: Action)
    ensures
        action@ == after_file(paths_of(files@), outputs_of(compiled_paths@)),
{
    if compiled_paths.len() < files.len() {
        Action::Compile {
            file: files[compiled_paths.len()].clone(),
            style: OutputStyle::Compressed,
            config_function: "zola-config".to_owned(),
        }
    } else {
        match validate(compiled_paths) {
            Ok(_) => Action::Finish { result: Ok(()) },
            Err(collision) => {
                proof {
                    let records = outputs_of(compiled_paths@);
                    reported_collision_is_unique(records, collision@, reported_collision(records));
                }
                Action::Finish { result: Err(SassError::OutputCollision { collision }) }
            },
        }
    }
}

/// Starts a compilation run for the site at `base_path`, whose stylesheets
/// lie in its directory `sass`, with the outputs to be written below
/// `output_path` and `config` as the configuration that stylesheets can ask
/// for. The first thing to do is to create the output directory.
pub fn compile_sass(base_path: &SassPath, output_path: &SassPath, config: ConfigurationValue) -> (run:
    CompileRun)
    ensures
        run@ == initial_run(base_path@, output_path@, config@),
        run_wf(run@),
{
    let sass_path = {
        let mut sass_path = base_path.clone();
        sass_path.push("sass");
        sass_path
    };
    let run = CompileRun {
        sass_path,
        output_path: output_path.clone(),
        config,
        files: Vec::new(),
        compiled_paths: Vec::new(),
        css: String::new(),
        pending: Action::CreateDirectory { path: output_path.clone() },
    };
    proof {
        assert(run@.files =~= Seq::empty());
        assert(run@.compiled =~= Seq::empty());
    }
    run
}

impl CompileRun {
    #[verifier::type_invariant]
    spec fn is_valid(&self) -> bool {
        run_wf(self@)
    }

    /// What is to be done next.
    pub fn pending(&self) -> (action: &Action)
        ensures
            action@ == self@.pending,
            run_wf(self@),
    {
        proof {
            use_type_invariant(self);
        }
        &self.pending
    }

    /// The records of the stylesheets whose output has been written.
    pub fn compiled_paths(&self) -> (records: &Vec<CompiledOutput>)
        ensures
            outputs_of(records@) == self@.compiled,
    {
        &self.compiled_paths
    }

    /// Takes the report of what happened and decides how the run goes on.
    pub fn step(self, event: Event) -> (next: CompileRun)
        ensures
            next@ == step_model(self@, event@),
            run_wf(next@),
    {
        proof {
            use_type_invariant(&self);
            step_preserves_wf(self@, event@);
        }
        let CompileRun {
            sass_path,
            output_path,
            config,
            mut files,
            mut compiled_paths,
            mut css,
            pending,
        } = self;
        let pending = match pending {
            Action::CreateDirectory { path } => match event {
                Event::Succeeded => Action::SetCurrentConfig { config: config.clone() },
                Event::Failed { cause } => Action::Finish {
                    result: Err(SassError::Io { path, cause }),
                },
                _ => Action::CreateDirectory { path },
            },
            Action::SetCurrentConfig { config: handed } => match event {
                Event::Succeeded => Action::ListEntries { root: sass_path.clone() },
                _ => Action::SetCurrentConfig { config: handed },
            },
            Action::ListEntries { root } => match event {
                Event::Entries { entries } => {
                    files = get_non_partial_scss(&sass_path, &entries);
                    next_action(&files, &compiled_paths)
                },
                _ => Action::ListEntries { root },
            },
            Action::Compile { file, style, config_function } => match event {
                Event::Compiled { css: text } => {
                    let record = make_record(&sass_path, &output_path, &file);
                    css = text;
                    Action::CreateParentDirectories { path: record.output.parent().unwrap() }
                },
                Event::Failed { cause } => Action::Finish {
                    result: Err(SassError::Compiler { source: file, message: cause }),
                },
                _ => Action::Compile { file, style, config_function },
            },
            Action::CreateParentDirectories { path } => match event {
                Event::Succeeded => {
                    let record = make_record(
                        &sass_path,
                        &output_path,
                        &files[compiled_paths.len()],
                    );
                    Action::WriteFile { path: record.output, css: css.clone() }
                },
                Event::Failed { cause } => Action::Finish {
                    result: Err(SassError::Io { path, cause }),
                },
                _ => Action::CreateParentDirectories { path },
            },
            Action::WriteFile { path, css: text } => match event {
                Event::Succeeded => {
                    let record = make_record(
                        &sass_path,
                        &output_path,
                        &files[compiled_paths.len()],
                    );
                    let ghost written = outputs_of(compiled_paths@);
                    compiled_paths.push(record);
                    assert(outputs_of(compiled_paths@) =~= written.push(record@));
                    next_action(&files, &compiled_paths)
                },
                Event::Failed { cause } => Action::Finish {
                    result: Err(SassError::Io { path, cause }),
                },
                _ => Action::WriteFile { path, css: text },
            },
            Action::Finish { result } => Action::Finish { result },
        };
        let next = CompileRun {
            sass_path,
            output_path,
            config,
            files,
            compiled_paths,
            css,
            pending,
        };
        next
    }
}

} // verus!
