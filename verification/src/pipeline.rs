//! One installation from a release's candidates to the installed file: choose
//! the asset, have it downloaded, install it.
//!
//! Like the installer, a `Pipeline` decides and the caller acts: it says
//! which action is due and takes the event that reports how the action went.

use vstd::prelude::*;
use crate::asset::{scored, AssetCandidate, AssetInfo, AssetView};
use crate::install::{
    all_went_well, archive_kind_of, finished_stays_finished, install_message_of, next_phase,
    pending_of, run_ends, run_phase, steps_left, success_takes_every_step, ActionView, Event,
    InstallAction, InstallError, Installer, InstallerView, Phase,
};
use crate::select::{choice, select};
use crate::text::{join_path, joined};

verus! {

/// Why a run ended without an installed file.
#[derive(Clone, Copy, PartialEq, Eq, Structural, Debug)]
pub enum PipelineError {
    /// No candidate matched any platform signal.
    NoEligibleAsset,
    /// The chosen asset could not be downloaded.
    DownloadFailed,
    /// The installation failed, for the reason given.
    Install(InstallError),
}

/// What to tell the user about a failed run.
pub open spec fn message_of(error: PipelineError) -> Seq<char> {
    match error {
        PipelineError::NoEligibleAsset => "there were no matching binaries to download"@,
        PipelineError::DownloadFailed => "the download of the chosen asset failed"@,
        PipelineError::Install(e) => install_message_of(e),
    }
}

impl PipelineError {
    /// A sentence for the user that says which stage failed.
    pub fn message(&self) -> (text: &'static str)
        ensures
            text@ == message_of(*self),
    {
        match self {
            PipelineError::NoEligibleAsset => "there were no matching binaries to download",
            PipelineError::DownloadFailed => "the download of the chosen asset failed",
            PipelineError::Install(e) => e.message(),
        }
    }
}

/// The outcome of a run whose installation ended with `outcome`.
pub open spec fn lifted(outcome: Result<(), InstallError>) -> Result<(), PipelineError> {
    match outcome {
        Ok(_) => Ok(()),
        Err(e) => Err(PipelineError::Install(e)),
    }
}

/// What the caller is asked to do next.
#[derive(PartialEq, Eq, Debug)]
pub enum PipelineAction {
    /// Download the file at `url` in full.
    Fetch { url: String },
    /// Carry out a step of the installation on the downloaded bytes.
    Install(InstallAction),
    /// The run is over, with this outcome.
    Finish(Result<(), PipelineError>),
}

/// A `PipelineAction` with its texts as plain values.
pub enum PipelineActionView {
    Fetch { url: Seq<char> },
    Install(ActionView),
    Finish(Result<(), PipelineError>),
}

impl View for PipelineAction {
    type V = PipelineActionView;

    open spec fn view(&self) -> PipelineActionView {
        match *self {
            PipelineAction::Fetch { url } => PipelineActionView::Fetch { url: url@ },
            PipelineAction::Install(action) => PipelineActionView::Install(action@),
            PipelineAction::Finish(outcome) => PipelineActionView::Finish(outcome),
        }
    }
}

/// How far a run has come, as plain values.
pub enum StageView {
    /// The chosen asset is being downloaded; what to install, and where, waits.
    Downloading { install_name: Seq<char>, destination: Seq<char> },
    /// The download is there and is being installed.
    Installing(InstallerView),
    /// Nothing is left to do.
    Finished(Result<(), PipelineError>),
}

/// What a `Pipeline` holds, as plain values.
pub struct PipelineView {
    pub asset: AssetView,
    pub stage: StageView,
}

/// The stage in which an installation stands that has reached `state`: the
/// run is over as soon as the installation is.
pub open spec fn installing(state: InstallerView) -> StageView {
    match state.phase {
        Phase::Finished(outcome) => StageView::Finished(lifted(outcome)),
        _ => StageView::Installing(state),
    }
}

/// The stage that follows `stage` when `event` is reported, for an asset of
/// the given content type. A download that fails ends the run; so does a
/// content type that is no archive format, once the download is there.
pub open spec fn next_stage(stage: StageView, content_type: Seq<char>, event: Event) -> StageView {
    match stage {
        StageView::Downloading { install_name, destination } => if event is Completed {
            match archive_kind_of(content_type) {
                Some(kind) => StageView::Installing(
                    InstallerView {
                        phase: Phase::AwaitWorkspace,
                        kind,
                        member_name: install_name,
                        destination,
                    },
                ),
                None => StageView::Finished(
                    Err(PipelineError::Install(InstallError::UnsupportedContentType)),
                ),
            }
        } else {
            StageView::Finished(Err(PipelineError::DownloadFailed))
        },
        StageView::Installing(state) => installing(
            InstallerView { phase: next_phase(state.phase, state.member_name, event), ..state },
        ),
        StageView::Finished(outcome) => StageView::Finished(outcome),
    }
}

/// The outcome of a run that has reached `stage`, once it is over.
pub open spec fn run_outcome(stage: StageView) -> Option<Result<(), PipelineError>> {
    match stage {
        StageView::Downloading { .. } => None,
        StageView::Installing(inner) => match inner.phase {
            Phase::Finished(outcome) => Some(lifted(outcome)),
            _ => None,
        },
        StageView::Finished(outcome) => Some(outcome),
    }
}

/// The action that is due in a given state.
pub open spec fn pending_action(state: PipelineView) -> PipelineActionView {
    match state.stage {
        StageView::Downloading { .. } => PipelineActionView::Fetch { url: state.asset.download_url },
        StageView::Installing(inner) => match inner.phase {
            Phase::Finished(outcome) => PipelineActionView::Finish(lifted(outcome)),
            _ => PipelineActionView::Install(pending_of(inner)),
        },
        StageView::Finished(outcome) => PipelineActionView::Finish(outcome),
    }
}

enum Stage {
    Downloading { install_name: String, destination: String },
    Installing(Installer),
    Finished(Result<(), PipelineError>),
}

impl View for Stage {
    type V = StageView;

    closed spec fn view(&self) -> StageView {
        match *self {
            Stage::Downloading { install_name, destination } => StageView::Downloading {
                install_name: install_name@,
                destination: destination@,
            },
            Stage::Installing(installer) => StageView::Installing(installer@),
            Stage::Finished(outcome) => StageView::Finished(outcome),
        }
    }
}

/// The state of one run: the asset that was chosen and the stage reached.
pub struct Pipeline {
    asset: AssetInfo,
    stage: Stage,
}

impl View for Pipeline {
    type V = PipelineView;

    closed spec fn view(&self) -> PipelineView {
        PipelineView { asset: self.asset@, stage: self.stage@ }
    }
}

fn lift(outcome: Result<(), InstallError>) -> (lifted_outcome: Result<(), PipelineError>)
    ensures
        lifted_outcome == lifted(outcome),
{
    match outcome {
        Ok(_) => Ok(()),
        Err(e) => Err(PipelineError::Install(e)),
    }
}

impl Pipeline {
    /// Chooses the asset to install among `candidates` and starts a run that
    /// installs it under the name `install_name` in the directory
    /// `destination_dir`. With no eligible candidate there is no run.
    pub fn start(candidates: &Vec<AssetCandidate>, destination_dir: &str, install_name: &str) -> (started:
        Result<Pipeline, PipelineError>)
        ensures
            match choice(candidates@) {
                Some(i) => started is Ok && started->Ok_0@ == (PipelineView {
                    asset: scored(candidates@[i]@),
                    stage: StageView::Downloading {
                        install_name: install_name@,
                        destination: joined(destination_dir@, install_name@),
                    },
                }),
                None => started == Err::<Pipeline, PipelineError>(PipelineError::NoEligibleAsset),
            },
    {
        match select(candidates) {
            Ok(asset) => Ok(
                Pipeline {
                    asset,
                    stage: Stage::Downloading {
                        install_name: install_name.to_owned(),
                        destination: join_path(destination_dir, install_name),
                    },
                },
            ),
            Err(_) => Err(PipelineError::NoEligibleAsset),
        }
    }

    /// The asset that was chosen.
    pub fn asset(&self) -> (asset: &AssetInfo)
        ensures
            asset@ == self@.asset,
    {
        &self.asset
    }

    /// The action that is due.
    pub fn pending(&self) -> (action: PipelineAction)
        ensures
            action@ == pending_action(self@),
    {
        match &self.stage {
            Stage::Downloading { .. } => PipelineAction::Fetch {
                url: self.asset.download_url().to_owned(),
            },
            Stage::Installing(installer) => match installer.pending() {
                InstallAction::Finish(outcome) => PipelineAction::Finish(lift(outcome)),
                action => PipelineAction::Install(action),
            },
            Stage::Finished(outcome) => PipelineAction::Finish(*outcome),
        }
    }

    /// The outcome of the run, once it is over.
    pub fn outcome(&self) -> (outcome: Option<Result<(), PipelineError>>)
        ensures
            outcome == run_outcome(self@.stage),
    {
        match &self.stage {
            Stage::Downloading { .. } => None,
            Stage::Installing(installer) => match installer.outcome() {
                Some(outcome) => Some(lift(outcome)),
                None => None,
            },
            Stage::Finished(outcome) => Some(*outcome),
        }
    }

    /// Takes the event that answers the pending action and moves on. The
    /// chosen asset stays the same.
    pub fn advance(self, event: &Event) -> (next: Pipeline)
        ensures
            next@ == (PipelineView {
                asset: self@.asset,
                stage: next_stage(self@.stage, self@.asset.content_type, *event),
            }),
    {
        let Pipeline { asset, stage } = self;
        let stage = match stage {
            Stage::Downloading { install_name, destination } => {
                if matches!(event, Event::Completed) {
                    match Installer::begin(asset.content_type(), install_name, destination) {
                        Ok(installer) => Stage::Installing(installer),
                        Err(e) => Stage::Finished(Err(PipelineError::Install(e))),
                    }
                } else {
                    Stage::Finished(Err(PipelineError::DownloadFailed))
                }
            },
            Stage::Installing(installer) => {
                let installer = installer.advance(event);
                match installer.outcome() {
                    Some(outcome) => Stage::Finished(lift(outcome)),
                    None => Stage::Installing(installer),
                }
            },
            Stage::Finished(outcome) => Stage::Finished(outcome),
        };
        Pipeline { asset, stage }
    }
}

/// The stage reached from `stage` when `events` are reported one after another.
pub open spec fn run_stage(stage: StageView, content_type: Seq<char>, events: Seq<Event>) -> StageView
    decreases events.len(),
{
    if events.len() == 0 {
        stage
    } else {
        run_stage(next_stage(stage, content_type, events[0]), content_type, events.drop_first())
    }
}

/// The number of events after which a run in `stage` is over at the latest.
pub open spec fn events_left(stage: StageView) -> nat {
    match stage {
        StageView::Downloading { .. } => 7,
        StageView::Installing(inner) => steps_left(inner.phase),
        StageView::Finished(_) => 0,
    }
}

/// Every event brings the end of a run nearer, so no action is asked for
/// twice: neither the download nor any step of the installation is tried
/// again.
pub proof fn no_action_is_repeated(stage: StageView, content_type: Seq<char>, event: Event)
    requires
        settled(stage),
        !(stage is Finished),
    ensures
        events_left(next_stage(stage, content_type, event)) < events_left(stage),
{
}

/// A failure is final: once a run is over, further events change nothing, so
/// no other asset is tried.
pub proof fn finished_run_stays(
    outcome: Result<(), PipelineError>,
    content_type: Seq<char>,
    events: Seq<Event>,
)
    ensures
        run_stage(StageView::Finished(outcome), content_type, events) == StageView::Finished(
            outcome,
        ),
    decreases events.len(),
{
    if events.len() > 0 {
        finished_run_stays(outcome, content_type, events.drop_first());
    }
}

/// While a run installs, it follows the installation step for step, and ends
/// with the installation's own outcome.
pub proof fn run_follows_installation(
    inner: InstallerView,
    content_type: Seq<char>,
    events: Seq<Event>,
)
    ensures
        run_stage(installing(inner), content_type, events) == installing(
            InstallerView { phase: run_phase(inner.phase, inner.member_name, events), ..inner },
        ),
    decreases events.len(),
{
    if events.len() == 0 {
        assert(InstallerView { phase: inner.phase, ..inner } == inner);
    } else {
        let stepped = InstallerView {
            phase: next_phase(inner.phase, inner.member_name, events[0]),
            ..inner
        };
        assert(next_stage(installing(inner), content_type, events[0]) == installing(stepped));
        run_follows_installation(stepped, content_type, events.drop_first());
    }
}

/// Every run is over after seven events at most, whatever they report.
pub proof fn run_is_over(stage: StageView, content_type: Seq<char>, events: Seq<Event>)
    requires
        events.len() >= events_left(stage),
    ensures
        run_outcome(run_stage(stage, content_type, events)) is Some,
{
    match stage {
        StageView::Downloading { .. } => {
            let second = next_stage(stage, content_type, events[0]);
            let rest = events.drop_first();
            match second {
                StageView::Installing(inner) => {
                    assert(second == installing(inner));
                    run_follows_installation(inner, content_type, rest);
                    run_ends(inner.phase, inner.member_name, rest);
                },
                StageView::Finished(outcome) => {
                    finished_run_stays(outcome, content_type, rest);
                },
                StageView::Downloading { .. } => {},
            }
        },
        StageView::Installing(inner) => {
            if inner.phase is Finished {
                finished_stays_finished(inner.phase, inner.member_name, events);
                stuck_installation_is_over(inner, content_type, events);
            } else {
                assert(stage == installing(inner));
                run_follows_installation(inner, content_type, events);
                run_ends(inner.phase, inner.member_name, events);
            }
        },
        StageView::Finished(outcome) => {
            finished_run_stays(outcome, content_type, events);
        },
    }
}

proof fn stuck_installation_is_over(
    inner: InstallerView,
    content_type: Seq<char>,
    events: Seq<Event>,
)
    requires
        inner.phase is Finished,
    ensures
        run_outcome(run_stage(StageView::Installing(inner), content_type, events)) is Some,
{
    if events.len() > 0 {
        let outcome = inner.phase->Finished_0;
        assert(next_stage(StageView::Installing(inner), content_type, events[0])
            == StageView::Finished(lifted(outcome)));
        finished_run_stays(lifted(outcome), content_type, events.drop_first());
    }
}

/// A run of seven events installs the file exactly when the download came,
/// the asset's content type is an archive format, and every step of the
/// installation went well.
pub proof fn run_succeeds_exactly_when(
    install_name: Seq<char>,
    destination: Seq<char>,
    content_type: Seq<char>,
    events: Seq<Event>,
)
    requires
        events.len() == 7,
    ensures
        run_stage(StageView::Downloading { install_name, destination }, content_type, events)
            == StageView::Finished(Ok(())) <==> (events[0] is Completed && archive_kind_of(
            content_type,
        ) is Some && all_went_well(install_name, events.drop_first())),
{
    let first = StageView::Downloading { install_name, destination };
    let second = next_stage(first, content_type, events[0]);
    let rest = events.drop_first();
    match second {
        StageView::Installing(inner) => {
            assert(second == installing(inner));
            assert(inner.phase == Phase::AwaitWorkspace && inner.member_name == install_name);
            run_follows_installation(inner, content_type, rest);
            success_takes_every_step(install_name, rest);
            let last = run_phase(Phase::AwaitWorkspace, install_name, rest);
            assert(run_stage(first, content_type, events) == installing(
                InstallerView { phase: last, ..inner },
            ));
            match last {
                Phase::Finished(outcome) => {
                    if outcome is Ok {
                        let unit = outcome->Ok_0;
                        assert(unit == ());
                        assert(outcome == Ok::<(), InstallError>(unit));
                    }
                },
                _ => {},
            }
        },
        StageView::Finished(outcome) => {
            finished_run_stays(outcome, content_type, rest);
        },
        StageView::Downloading { .. } => {},
    }
}

/// An asset whose content type is no archive format is downloaded and then
/// refused: the run ends with `UnsupportedContentType` before any step of an
/// installation is asked for.
pub proof fn unsupported_type_ends_run(
    install_name: Seq<char>,
    destination: Seq<char>,
    content_type: Seq<char>,
    events: Seq<Event>,
)
    requires
        archive_kind_of(content_type) is None,
        events.len() > 0,
        events[0] is Completed,
    ensures
        run_stage(StageView::Downloading { install_name, destination }, content_type, events)
            == StageView::Finished(
            Err(PipelineError::Install(InstallError::UnsupportedContentType)),
        ),
{
    finished_run_stays(
        Err(PipelineError::Install(InstallError::UnsupportedContentType)),
        content_type,
        events.drop_first(),
    );
}

/// A download that fails ends the run with `DownloadFailed`, and nothing is
/// installed.
pub proof fn failed_download_ends_run(
    install_name: Seq<char>,
    destination: Seq<char>,
    content_type: Seq<char>,
    events: Seq<Event>,
)
    requires
        events.len() > 0,
        !(events[0] is Completed),
    ensures
        run_stage(StageView::Downloading { install_name, destination }, content_type, events)
            == StageView::Finished(Err(PipelineError::DownloadFailed)),
{
    finished_run_stays(Err(PipelineError::DownloadFailed), content_type, events.drop_first());
}

/// A stage as runs reach it: an installation that is over has ended the run.
pub open spec fn settled(stage: StageView) -> bool {
    stage is Installing ==> !(stage->Installing_0.phase is Finished)
}

/// Every step of a run leads to a settled stage.
pub proof fn steps_settle(stage: StageView, content_type: Seq<char>, event: Event)
    ensures
        settled(next_stage(stage, content_type, event)),
{
}

/// Reporting one more event after `events` is one more step from the stage
/// that `events` lead to.
pub proof fn run_stage_push(
    stage: StageView,
    content_type: Seq<char>,
    events: Seq<Event>,
    event: Event,
)
    ensures
        run_stage(stage, content_type, events.push(event)) == next_stage(
            run_stage(stage, content_type, events),
            content_type,
            event,
        ),
    decreases events.len(),
{
    let longer = events.push(event);
    if events.len() == 0 {
        assert(longer.drop_first() =~= Seq::<Event>::empty());
        assert(run_stage(stage, content_type, longer) == run_stage(
            next_stage(stage, content_type, event),
            content_type,
            longer.drop_first(),
        ));
    } else {
        assert(longer.drop_first() =~= events.drop_first().push(event));
        run_stage_push(
            next_stage(stage, content_type, events[0]),
            content_type,
            events.drop_first(),
            event,
        );
    }
}

/// The state of a run for `asset` when it starts.
pub open spec fn start_of(asset: AssetView, destination_dir: Seq<char>, install_name: Seq<char>) -> PipelineView {
    PipelineView {
        asset,
        stage: StageView::Downloading {
            install_name,
            destination: joined(destination_dir, install_name),
        },
    }
}

/// The state reached from `start` when `events` are reported one after another.
pub open spec fn state_after(start: PipelineView, events: Seq<Event>) -> PipelineView {
    PipelineView {
        asset: start.asset,
        stage: run_stage(start.stage, start.asset.content_type, events),
    }
}

/// The event at position `k` is what `perform` reported for the action that
/// was due when the events before it had been reported.
pub open spec fn reported_at<F: Fn(PipelineAction) -> Event>(
    perform: F,
    start: PipelineView,
    events: Seq<Event>,
    k: int,
) -> bool {
    exists|action: PipelineAction|
        action@ == pending_action(state_after(start, events.take(k))) && call_ensures(
            perform,
            (action,),
            events[k],
        )
}

/// Each of `events` is what `perform` reported for the action that was due
/// at its turn.
pub open spec fn reported_by<F: Fn(PipelineAction) -> Event>(
    perform: F,
    start: PipelineView,
    events: Seq<Event>,
) -> bool {
    forall|k: int| 0 <= k < events.len() ==> #[trigger] reported_at(perform, start, events, k)
}

/// Chooses the asset to install among `candidates`, has it downloaded and
/// installs it under the name `install_name` in the directory
/// `destination_dir`, with `perform` to carry out each action and report how
/// it went.
///
/// With no eligible candidate the run fails before `perform` is called.
/// Otherwise the outcome is the one that the events reported by `perform`
/// lead to, from the download of the chosen asset on.
pub fn run<F: Fn(PipelineAction) -> Event>(
    candidates: &Vec<AssetCandidate>,
    destination_dir: &str,
    install_name: &str,
    perform: F,
) -> (outcome: Result<(), PipelineError>)
    requires
        forall|action: PipelineAction| call_requires(perform, (action,)),
    ensures
        match choice(candidates@) {
            Some(i) => exists|events: Seq<Event>|
                events.len() <= 7 && #[trigger] state_after(
                    start_of(scored(candidates@[i]@), destination_dir@, install_name@),
                    events,
                ).stage == StageView::Finished(outcome) && reported_by(
                    perform,
                    start_of(scored(candidates@[i]@), destination_dir@, install_name@),
                    events,
                ),
            None => outcome == Err::<(), PipelineError>(PipelineError::NoEligibleAsset),
        },
{
    let mut pipeline = match Pipeline::start(candidates, destination_dir, install_name) {
        Ok(pipeline) => pipeline,
        Err(e) => {
            return Err(e);
        },
    };
    let ghost start = pipeline@;
    let ghost mut log: Seq<Event> = Seq::empty();
    loop
        invariant
            forall|action: PipelineAction| call_requires(perform, (action,)),
            choice(candidates@) is Some,
            start == start_of(
                scored(candidates@[choice(candidates@)->Some_0]@),
                destination_dir@,
                install_name@,
            ),
            pipeline@ == state_after(start, log),
            settled(pipeline@.stage),
            reported_by(perform, start, log),
            log.len() + events_left(pipeline@.stage) <= 7,
        decreases events_left(pipeline@.stage),
    {
        match pipeline.pending() {
            PipelineAction::Finish(outcome) => {
                assert(pipeline@.stage == StageView::Finished(outcome));
                return outcome;
            },
            action => {
                let ghost asked = action;
                let event = perform(action);
                proof {
                    let longer = log.push(event);
                    run_stage_push(start.stage, start.asset.content_type, log, event);
                    steps_settle(pipeline@.stage, start.asset.content_type, event);
                    assert forall|k: int| 0 <= k < longer.len() implies #[trigger] reported_at(
                        perform,
                        start,
                        longer,
                        k,
                    ) by {
                        if k < log.len() {
                            assert(reported_at(perform, start, log, k));
                            assert(longer.take(k) =~= log.take(k));
                            assert(longer[k] == log[k]);
                        } else {
                            assert(longer.take(k) =~= log);
                            assert(asked@ == pending_action(state_after(start, longer.take(k))));
                            assert(call_ensures(perform, (asked,), longer[k]));
                        }
                    }
                    log = longer;
                }
                pipeline = pipeline.advance(&event);
            },
        }
    }
}

} // verus!
