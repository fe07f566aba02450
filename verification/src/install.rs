//! Installation of a downloaded archive, as a sequence of decisions.
//!
//! The work on disk is done by the caller. An `Installer` says which action is
//! due, takes the event that reports how the action went, and moves on. The
//! archive is unpacked into a workspace of its own, which is removed again
//! whether the installation succeeds or fails.

use vstd::prelude::*;
use crate::text::{is_listed, listed, same_text};

verus! {

/// Permission bits of an installed executable: `rwxr-xr-x`.
pub const EXECUTABLE_MODE: u32 = 0o755;

/// Why an installation failed.
#[derive(Clone, Copy, PartialEq, Eq, Structural, Debug)]
pub enum InstallError {
    /// The workspace could not be made or the archive could not be unpacked.
    ArchiveExtractionFailed,
    /// The unpacked archive holds no file of the expected name.
    MissingExpectedMember,
    /// The content type is neither zip nor gzip.
    UnsupportedContentType,
    /// The file could not be moved into place or made executable, or the
    /// workspace could not be removed after the file was installed.
    InstallWriteFailed,
}

/// What to tell the user about a failed installation.
pub open spec fn install_message_of(error: InstallError) -> Seq<char> {
    match error {
        InstallError::ArchiveExtractionFailed => "the archive could not be unpacked"@,
        InstallError::MissingExpectedMember => "the archive holds no file of the expected name"@,
        InstallError::UnsupportedContentType => "the asset is neither a zip nor a gzip archive"@,
        InstallError::InstallWriteFailed => "the executable could not be put in place"@,
    }
}

impl InstallError {
    /// A sentence for the user that says which step failed.
    pub fn message(&self) -> (text: &'static str)
        ensures
            text@ == install_message_of(*self),
    {
        match self {
            InstallError::ArchiveExtractionFailed => "the archive could not be unpacked",
            InstallError::MissingExpectedMember => "the archive holds no file of the expected name",
            InstallError::UnsupportedContentType => "the asset is neither a zip nor a gzip archive",
            InstallError::InstallWriteFailed => "the executable could not be put in place",
        }
    }
}

/// The archive formats that are unpacked.
#[derive(Clone, Copy, PartialEq, Eq, Structural, Debug)]
pub enum ArchiveKind {
    Zip,
    Gzip,
}

/// The archive format that a content type stands for, if it is one.
pub open spec fn archive_kind_of(content_type: Seq<char>) -> Option<ArchiveKind> {
    if content_type == "application/zip"@ {
        Some(ArchiveKind::Zip)
    } else if content_type == "application/gzip"@ {
        Some(ArchiveKind::Gzip)
    } else {
        None
    }
}

/// Tells the archive format from the content type, which must be written
/// exactly as `application/zip` or `application/gzip`.
pub fn archive_kind(content_type: &str) -> (kind: Option<ArchiveKind>)
    ensures
        kind == archive_kind_of(content_type@),
{
    if same_text(content_type, "application/zip") {
        Some(ArchiveKind::Zip)
    } else if same_text(content_type, "application/gzip") {
        Some(ArchiveKind::Gzip)
    } else {
        None
    }
}

/// How far an installation has come. Each phase but the last waits for the
/// event that answers its action.
#[derive(Clone, Copy, PartialEq, Eq, Debug)]
pub enum Phase {
    /// The workspace is being made.
    AwaitWorkspace,
    /// The archive is being unpacked into the workspace.
    AwaitExtraction,
    /// The names of the unpacked files are being read.
    AwaitEntries,
    /// The expected file is being moved to its destination.
    AwaitMove,
    /// The installed file is being made executable.
    AwaitMode,
    /// The workspace is being removed; the outcome so far is kept.
    AwaitRemoval(Result<(), InstallError>),
    /// Nothing is left to do.
    Finished(Result<(), InstallError>),
}

/// What the caller reports after it has carried out an action.
#[derive(PartialEq, Eq, Debug)]
pub enum Event {
    /// The action was carried out.
    Completed,
    /// The action failed.
    Failed,
    /// The names of the files at the top of the workspace.
    Listed(Vec<String>),
}

/// What the caller is asked to do next.
#[derive(PartialEq, Eq, Debug)]
pub enum InstallAction {
    /// Make a fresh, uniquely named directory to unpack into.
    CreateWorkspace,
    /// Unpack the whole archive into the workspace. With `strip_top_level`, a
    /// single directory that wraps all of the archive's contents is left out.
    Extract { kind: ArchiveKind, strip_top_level: bool },
    /// Report the names of the files at the top of the workspace.
    ListWorkspace,
    /// Rename the workspace's file `member` to the path `destination`.
    MoveIntoPlace { member: String, destination: String },
    /// Set the permission bits of the file at `path` to `mode`.
    SetMode { path: String, mode: u32 },
    /// Delete the workspace and all that is left in it.
    RemoveWorkspace,
    /// The installation is over, with this outcome.
    Finish(Result<(), InstallError>),
}

/// An `InstallAction` with its texts as plain values.
pub enum ActionView {
    CreateWorkspace,
    Extract { kind: ArchiveKind, strip_top_level: bool },
    ListWorkspace,
    MoveIntoPlace { member: Seq<char>, destination: Seq<char> },
    SetMode { path: Seq<char>, mode: u32 },
    RemoveWorkspace,
    Finish(Result<(), InstallError>),
}

impl View for InstallAction {
    type V = ActionView;

    open spec fn view(&self) -> ActionView {
        match *self {
            InstallAction::CreateWorkspace => ActionView::CreateWorkspace,
            InstallAction::Extract { kind, strip_top_level } => ActionView::Extract {
                kind,
                strip_top_level,
            },
            InstallAction::ListWorkspace => ActionView::ListWorkspace,
            InstallAction::MoveIntoPlace { member, destination } => ActionView::MoveIntoPlace {
                member: member@,
                destination: destination@,
            },
            InstallAction::SetMode { path, mode } => ActionView::SetMode { path: path@, mode },
            InstallAction::RemoveWorkspace => ActionView::RemoveWorkspace,
            InstallAction::Finish(outcome) => ActionView::Finish(outcome),
        }
    }
}

/// The outcome once the workspace is gone, or could not be removed: an
/// earlier failure stands; a removal that fails turns success into
/// `InstallWriteFailed`.
pub open spec fn after_removal(outcome: Result<(), InstallError>, removed: bool) -> Result<
    (),
    InstallError,
> {
    match outcome {
        Ok(_) => if removed {
            Ok(())
        } else {
            Err(InstallError::InstallWriteFailed)
        },
        Err(e) => Err(e),
    }
}

/// The phase that follows `phase` when `event` is reported. An event that
/// does not answer the action of the phase counts as that action's failure.
pub open spec fn next_phase(phase: Phase, member: Seq<char>, event: Event) -> Phase {
    match phase {
        Phase::AwaitWorkspace => if event is Completed {
            Phase::AwaitExtraction
        } else {
            Phase::Finished(Err(InstallError::ArchiveExtractionFailed))
        },
        Phase::AwaitExtraction => if event is Completed {
            Phase::AwaitEntries
        } else {
            Phase::AwaitRemoval(Err(InstallError::ArchiveExtractionFailed))
        },
        Phase::AwaitEntries => if event is Listed && listed(event->Listed_0@, member) {
            Phase::AwaitMove
        } else {
            Phase::AwaitRemoval(Err(InstallError::MissingExpectedMember))
        },
        Phase::AwaitMove => if event is Completed {
            Phase::AwaitMode
        } else {
            Phase::AwaitRemoval(Err(InstallError::InstallWriteFailed))
        },
        Phase::AwaitMode => if event is Completed {
            Phase::AwaitRemoval(Ok(()))
        } else {
            Phase::AwaitRemoval(Err(InstallError::InstallWriteFailed))
        },
        Phase::AwaitRemoval(outcome) => Phase::Finished(after_removal(outcome, event is Completed)),
        Phase::Finished(outcome) => Phase::Finished(outcome),
    }
}

/// The outcome of an installation that has reached `phase`, once it is over.
pub open spec fn outcome_of(phase: Phase) -> Option<Result<(), InstallError>> {
    match phase {
        Phase::Finished(outcome) => Some(outcome),
        _ => None,
    }
}

/// What an `Installer` holds, as plain values.
pub struct InstallerView {
    pub phase: Phase,
    pub kind: ArchiveKind,
    pub member_name: Seq<char>,
    pub destination: Seq<char>,
}

/// The action that is due in a given state.
pub open spec fn pending_of(state: InstallerView) -> ActionView {
    match state.phase {
        Phase::AwaitWorkspace => ActionView::CreateWorkspace,
        Phase::AwaitExtraction => ActionView::Extract { kind: state.kind, strip_top_level: true },
        Phase::AwaitEntries => ActionView::ListWorkspace,
        Phase::AwaitMove => ActionView::MoveIntoPlace {
            member: state.member_name,
            destination: state.destination,
        },
        Phase::AwaitMode => ActionView::SetMode { path: state.destination, mode: EXECUTABLE_MODE },
        Phase::AwaitRemoval(_) => ActionView::RemoveWorkspace,
        Phase::Finished(outcome) => ActionView::Finish(outcome),
    }
}

/// The state of one installation: the phase it is in, the archive's format,
/// the name of the file to take from the archive, and the path to put it at.
pub struct Installer {
    phase: Phase,
    kind: ArchiveKind,
    member_name: String,
    destination: String,
}

impl View for Installer {
    type V = InstallerView;

    closed spec fn view(&self) -> InstallerView {
        InstallerView {
            phase: self.phase,
            kind: self.kind,
            member_name: self.member_name@,
            destination: self.destination@,
        }
    }
}

impl Installer {
    /// Starts an installation of the file `member_name` of an archive at the
    /// path `destination`. A content type that is no archive format is
    /// refused at once, before any action is asked for.
    pub fn begin(content_type: &str, member_name: String, destination: String) -> (started: Result<
        Installer,
        InstallError,
    >)
        ensures
            match archive_kind_of(content_type@) {
                Some(kind) => started is Ok && started->Ok_0@ == (InstallerView {
                    phase: Phase::AwaitWorkspace,
                    kind,
                    member_name: member_name@,
                    destination: destination@,
                }),
                None => started == Err::<Installer, InstallError>(
                    InstallError::UnsupportedContentType,
                ),
            },
    {
        match archive_kind(content_type) {
            Some(kind) => Ok(Installer { phase: Phase::AwaitWorkspace, kind, member_name, destination }),
            None => Err(InstallError::UnsupportedContentType),
        }
    }

    /// The action that is due.
    pub fn pending(&self) -> (action: InstallAction)
        ensures
            action@ == pending_of(self@),
    {
        match self.phase {
            Phase::AwaitWorkspace => InstallAction::CreateWorkspace,
            Phase::AwaitExtraction => InstallAction::Extract {
                kind: self.kind,
                strip_top_level: true,
            },
            Phase::AwaitEntries => InstallAction::ListWorkspace,
            Phase::AwaitMove => InstallAction::MoveIntoPlace {
                member: self.member_name.clone(),
                destination: self.destination.clone(),
            },
            Phase::AwaitMode => InstallAction::SetMode {
                path: self.destination.clone(),
                mode: EXECUTABLE_MODE,
            },
            Phase::AwaitRemoval(_) => InstallAction::RemoveWorkspace,
            Phase::Finished(outcome) => InstallAction::Finish(outcome),
        }
    }

    /// The outcome of the installation, once it is over.
    pub fn outcome(&self) -> (outcome: Option<Result<(), InstallError>>)
        ensures
            outcome == outcome_of(self@.phase),
    {
        match self.phase {
            Phase::Finished(outcome) => Some(outcome),
            _ => None,
        }
    }

    /// Takes the event that answers the pending action and moves to the next
    /// phase. Only the phase changes.
    pub fn advance(self, event: &Event) -> (next: Installer)
        ensures
            next@ == (InstallerView {
                phase: next_phase(self@.phase, self@.member_name, *event),
                ..self@
            }),
    {
        let completed = matches!(event, Event::Completed);
        let phase = match self.phase {
            Phase::AwaitWorkspace => if completed {
                Phase::AwaitExtraction
            } else {
                Phase::Finished(Err(InstallError::ArchiveExtractionFailed))
            },
            Phase::AwaitExtraction => if completed {
                Phase::AwaitEntries
            } else {
                Phase::AwaitRemoval(Err(InstallError::ArchiveExtractionFailed))
            },
            Phase::AwaitEntries => {
                let found = match event {
                    Event::Listed(names) => is_listed(names, self.member_name.as_str()),
                    _ => false,
                };
                if found {
                    Phase::AwaitMove
                } else {
                    Phase::AwaitRemoval(Err(InstallError::MissingExpectedMember))
                }
            },
            Phase::AwaitMove => if completed {
                Phase::AwaitMode
            } else {
                Phase::AwaitRemoval(Err(InstallError::InstallWriteFailed))
            },
            Phase::AwaitMode => if completed {
                Phase::AwaitRemoval(Ok(()))
            } else {
                Phase::AwaitRemoval(Err(InstallError::InstallWriteFailed))
            },
            Phase::AwaitRemoval(outcome) => Phase::Finished(
                match outcome {
                    Ok(_) => if completed {
                        Ok(())
                    } else {
                        Err(InstallError::InstallWriteFailed)
                    },
                    Err(e) => Err(e),
                },
            ),
            Phase::Finished(outcome) => Phase::Finished(outcome),
        };
        Installer {
            phase,
            kind: self.kind,
            member_name: self.member_name,
            destination: self.destination,
        }
    }
}

/// The phases in which the workspace exists and its removal is not yet due.
pub open spec fn holds_workspace(phase: Phase) -> bool {
    phase is AwaitExtraction || phase is AwaitEntries || phase is AwaitMove || phase is AwaitMode
}

/// The number of events after which an installation in `phase` is over at the latest.
pub open spec fn steps_left(phase: Phase) -> nat {
    match phase {
        Phase::AwaitWorkspace => 6,
        Phase::AwaitExtraction => 5,
        Phase::AwaitEntries => 4,
        Phase::AwaitMove => 3,
        Phase::AwaitMode => 2,
        Phase::AwaitRemoval(_) => 1,
        Phase::Finished(_) => 0,
    }
}

/// The phase reached from `phase` when `events` are reported one after another.
pub open spec fn run_phase(phase: Phase, member: Seq<char>, events: Seq<Event>) -> Phase
    decreases events.len(),
{
    if events.len() == 0 {
        phase
    } else {
        run_phase(next_phase(phase, member, events[0]), member, events.drop_first())
    }
}

/// While the workspace exists, no event ends the installation: the next phase
/// still holds the workspace or asks for its removal.
pub proof fn workspace_is_not_left_behind(phase: Phase, member: Seq<char>, event: Event)
    requires
        holds_workspace(phase),
    ensures
        holds_workspace(next_phase(phase, member, event)) || next_phase(
            phase,
            member,
            event,
        ) is AwaitRemoval,
{
}

/// An installation ends either in answer to the removal of the workspace, or
/// because the workspace could not be made in the first place.
pub proof fn end_follows_removal(phase: Phase, member: Seq<char>, event: Event)
    requires
        !(phase is Finished),
        next_phase(phase, member, event) is Finished,
    ensures
        phase is AwaitRemoval || (phase is AwaitWorkspace && !(event is Completed)),
{
}

/// Every event brings the end nearer, so no action is asked for twice:
/// nothing is tried again, and one run installs one file at most.
pub proof fn no_step_is_repeated(phase: Phase, member: Seq<char>, event: Event)
    requires
        !(phase is Finished),
    ensures
        steps_left(next_phase(phase, member, event)) < steps_left(phase),
{
}

/// The outcome that was reached before the workspace is removed is the final
/// one if it is a failure, whatever the removal reports.
pub proof fn failure_is_kept(error: InstallError, member: Seq<char>, event: Event)
    ensures
        next_phase(Phase::AwaitRemoval(Err(error)), member, event) == Phase::Finished(Err(error)),
{
}

/// Once an installation is over, further events change nothing.
pub proof fn finished_stays_finished(phase: Phase, member: Seq<char>, events: Seq<Event>)
    requires
        phase is Finished,
    ensures
        run_phase(phase, member, events) == phase,
    decreases events.len(),
{
    if events.len() > 0 {
        finished_stays_finished(phase, member, events.drop_first());
    }
}

/// Every event brings the end nearer: each installation is over after six
/// events at most, whatever they report.
pub proof fn run_ends(phase: Phase, member: Seq<char>, events: Seq<Event>)
    requires
        events.len() >= steps_left(phase),
    ensures
        run_phase(phase, member, events) is Finished,
    decreases events.len(),
{
    if phase is Finished {
        finished_stays_finished(phase, member, events);
    } else {
        run_ends(next_phase(phase, member, events[0]), member, events.drop_first());
    }
}

/// When the unpacked archive holds no file of the expected name, the
/// workspace is removed next and the installation ends with
/// `MissingExpectedMember`, whatever the removal reports.
pub proof fn missing_member_is_reported(member: Seq<char>, names: Vec<String>, removal: Event)
    requires
        !listed(names@, member),
    ensures
        next_phase(Phase::AwaitEntries, member, Event::Listed(names)) == Phase::AwaitRemoval(
            Err(InstallError::MissingExpectedMember),
        ),
        run_phase(Phase::AwaitEntries, member, seq![Event::Listed(names), removal])
            == Phase::Finished(Err(InstallError::MissingExpectedMember)),
{
    let events = seq![Event::Listed(names), removal];
    let second = next_phase(Phase::AwaitEntries, member, events[0]);
    assert(events.drop_first() =~= seq![removal]);
    assert(events.drop_first().drop_first() =~= Seq::<Event>::empty());
    assert(run_phase(Phase::AwaitEntries, member, events) == run_phase(
        second,
        member,
        events.drop_first(),
    ));
    let third = next_phase(second, member, removal);
    assert(run_phase(second, member, events.drop_first()) == run_phase(
        third,
        member,
        events.drop_first().drop_first(),
    ));
}

/// The six events of an installation in which every step went well: the
/// listing holds the expected name and every other action was carried out.
pub open spec fn all_went_well(member: Seq<char>, events: Seq<Event>) -> bool {
    &&& events.len() == 6
    &&& events[0] is Completed
    &&& events[1] is Completed
    &&& events[2] is Listed
    &&& listed(events[2]->Listed_0@, member)
    &&& events[3] is Completed
    &&& events[4] is Completed
    &&& events[5] is Completed
}

/// An installation of six events succeeds exactly when every step went well.
pub proof fn success_takes_every_step(member: Seq<char>, events: Seq<Event>)
    requires
        events.len() == 6,
    ensures
        run_phase(Phase::AwaitWorkspace, member, events) == Phase::Finished(Ok(())) <==> all_went_well(
            member,
            events,
        ),
{
    let phase0 = Phase::AwaitWorkspace;
    let rest1 = events.drop_first();
    let rest2 = rest1.drop_first();
    let rest3 = rest2.drop_first();
    let rest4 = rest3.drop_first();
    let rest5 = rest4.drop_first();
    let rest6 = rest5.drop_first();
    let phase1 = next_phase(phase0, member, events[0]);
    let phase2 = next_phase(phase1, member, rest1[0]);
    let phase3 = next_phase(phase2, member, rest2[0]);
    let phase4 = next_phase(phase3, member, rest3[0]);
    let phase5 = next_phase(phase4, member, rest4[0]);
    let phase6 = next_phase(phase5, member, rest5[0]);
    assert(run_phase(phase0, member, events) == run_phase(phase1, member, rest1));
    assert(run_phase(phase1, member, rest1) == run_phase(phase2, member, rest2));
    assert(run_phase(phase2, member, rest2) == run_phase(phase3, member, rest3));
    assert(run_phase(phase3, member, rest3) == run_phase(phase4, member, rest4));
    assert(run_phase(phase4, member, rest4) == run_phase(phase5, member, rest5));
    assert(run_phase(phase5, member, rest5) == run_phase(phase6, member, rest6));
    assert(run_phase(phase6, member, rest6) == phase6);
    assert(rest1[0] == events[1]);
    assert(rest2[0] == events[2]);
    assert(rest3[0] == events[3]);
    assert(rest4[0] == events[4]);
    assert(rest5[0] == events[5]);
}

/// Reporting one more event after `events` is one more step from the phase
/// that `events` lead to.
pub proof fn run_phase_push(
    phase: Phase,
    member: Seq<char>,
    events: Seq<Event>,
    event: Event,
)
    ensures
        run_phase(phase, member, events.push(event)) == next_phase(
            run_phase(phase, member, events),
            member,
            event,
        ),
    decreases events.len(),
{
    let longer = events.push(event);
    if events.len() == 0 {
        assert(longer.drop_first() =~= Seq::<Event>::empty());
        assert(run_phase(phase, member, longer) == run_phase(
            next_phase(phase, member, event),
            member,
            longer.drop_first(),
        ));
    } else {
        assert(longer.drop_first() =~= events.drop_first().push(event));
        run_phase_push(next_phase(phase, member, events[0]), member, events.drop_first(), event);
    }
}

/// The state reached by `events` in an installation that was begun with the
/// given format, member name and destination.
pub open spec fn state_after(
    kind: ArchiveKind,
    member: Seq<char>,
    destination: Seq<char>,
    events: Seq<Event>,
) -> InstallerView {
    InstallerView {
        phase: run_phase(Phase::AwaitWorkspace, member, events),
        kind,
        member_name: member,
        destination,
    }
}

/// The event at position `k` is what `perform` reported for the action that
/// was due when the events before it had been reported.
pub open spec fn answered_at<F: Fn(InstallAction) -> Event>(
    perform: F,
    kind: ArchiveKind,
    member: Seq<char>,
    destination: Seq<char>,
    events: Seq<Event>,
    k: int,
) -> bool {
    exists|action: InstallAction|
        action@ == pending_of(state_after(kind, member, destination, events.take(k)))
            && call_ensures(perform, (action,), events[k])
}

/// Each of `events` is what `perform` reported for the action that was due
/// at its turn.
pub open spec fn answered_by<F: Fn(InstallAction) -> Event>(
    perform: F,
    kind: ArchiveKind,
    member: Seq<char>,
    destination: Seq<char>,
    events: Seq<Event>,
) -> bool {
    forall|k: int|
        0 <= k < events.len() ==> #[trigger] answered_at(
            perform,
            kind,
            member,
            destination,
            events,
            k,
        )
}

/// Installs the file `member_name` of an archive at the path `destination`,
/// with `perform` to carry out each action and report how it went.
///
/// A content type that is no archive format is refused before `perform` is
/// called. Otherwise the outcome is the one that the events reported by
/// `perform` lead to, from the making of the workspace on.
pub fn install<F: Fn(InstallAction) -> Event>(
    content_type: &str,
    member_name: String,
    destination: String,
    perform: F,
) -> (outcome: Result<(), InstallError>)
    requires
        forall|action: InstallAction| call_requires(perform, (action,)),
    ensures
        archive_kind_of(content_type@) is None ==> outcome == Err::<(), InstallError>(
            InstallError::UnsupportedContentType,
        ),
        archive_kind_of(content_type@) is Some ==> exists|events: Seq<Event>|
            events.len() <= 6 && #[trigger] run_phase(Phase::AwaitWorkspace, member_name@, events)
                == Phase::Finished(outcome) && answered_by(
                perform,
                archive_kind_of(content_type@)->Some_0,
                member_name@,
                destination@,
                events,
            ),
{
    let ghost member = member_name@;
    let ghost target = destination@;
    let ghost kind = archive_kind_of(content_type@)->Some_0;
    let mut installer = match Installer::begin(content_type, member_name, destination) {
        Ok(installer) => installer,
        Err(e) => {
            return Err(e);
        },
    };
    let ghost mut log: Seq<Event> = Seq::empty();
    loop
        invariant
            forall|action: InstallAction| call_requires(perform, (action,)),
            archive_kind_of(content_type@) is Some,
            member == member_name@,
            target == destination@,
            kind == archive_kind_of(content_type@)->Some_0,
            installer@ == state_after(kind, member, target, log),
            answered_by(perform, kind, member, target, log),
            log.len() + steps_left(installer@.phase) <= 6,
        decreases steps_left(installer@.phase),
    {
        match installer.pending() {
            InstallAction::Finish(outcome) => {
                assert(installer@.phase == Phase::Finished(outcome));
                return outcome;
            },
            action => {
                let ghost asked = action;
                let event = perform(action);
                proof {
                    let longer = log.push(event);
                    run_phase_push(Phase::AwaitWorkspace, member, log, event);
                    assert forall|k: int| 0 <= k < longer.len() implies #[trigger] answered_at(
                        perform,
                        kind,
                        member,
                        target,
                        longer,
                        k,
                    ) by {
                        if k < log.len() {
                            assert(answered_at(perform, kind, member, target, log, k));
                            assert(longer.take(k) =~= log.take(k));
                            assert(longer[k] == log[k]);
                        } else {
                            assert(longer.take(k) =~= log);
                            assert(asked@ == pending_of(
                                state_after(kind, member, target, longer.take(k)),
                            ));
                            assert(call_ensures(perform, (asked,), longer[k]));
                        }
                    }
                    log = longer;
                }
                installer = installer.advance(&event);
            },
        }
    }
}

} // verus!
