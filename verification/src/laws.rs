//! What holds of the controller whatever its driver answers.

use crate::locator::BottleState;
use crate::machine::{
    backup_step, cleanup_step, entry_step, finish, initial_model, install_step, on_start,
    privilege_step, probe_step, start_step, step_model, ControllerModel, Phase, RequestModel,
};
use crate::protocol::{
    is_artifact, ActionModel, Entry, EventModel, Failure, HostFile, Operation, Outcome,
};
use vstd::prelude::*;

verus! {

/// The state of the controller after the first `k` of the answers `events`.
pub open spec fn state_at(c: ControllerModel, events: Seq<EventModel>, k: nat) -> ControllerModel
    decreases k,
{
    if k == 0 {
        c
    } else {
        step_model(state_at(c, events, (k - 1) as nat), events[k - 1]).0
    }
}

/// The action that the controller asks for when it gets the answer
/// `events[k]`, after those before it.
pub open spec fn action_at(c: ControllerModel, events: Seq<EventModel>, k: nat) -> ActionModel {
    step_model(state_at(c, events, k), events[k as int]).1
}

/// Whether `phase` awaits the answer to a change of the group id.
pub open spec fn awaits_group(phase: Phase) -> bool {
    phase == Phase::RaisingGroup || phase == Phase::DroppingGroup
}

/// Whether `phase` awaits the answer to a change of the group or user id.
pub open spec fn awaits_privilege(phase: Phase) -> bool {
    awaits_group(phase) || phase == Phase::RaisingUser || phase == Phase::DroppingUser
}

/// Whether `phase` comes before the bottle's state is known.
pub open spec fn is_early(phase: Phase) -> bool {
    ||| phase == Phase::Idle
    ||| phase == Phase::CheckingMounts
    ||| phase == Phase::CheckingMarker
    ||| phase == Phase::ReadingUser
    ||| phase == Phase::Locating
    ||| phase == Phase::CheckingInit
}

/// Whether `phase` belongs to the work that is done with root privilege,
/// or to a launch.
pub open spec fn is_working(phase: Phase) -> bool {
    !is_early(phase) && !awaits_privilege(phase) && phase != Phase::Finished
}

/// Whether the bottle is being made in `phase`, from the first backup to
/// the start of the init.
pub open spec fn is_making(phase: Phase) -> bool {
    ||| phase == Phase::ReadingHostnameBackup
    ||| phase == Phase::ReadingHostname
    ||| phase == Phase::SavingHostname
    ||| phase == Phase::ReadingHostsBackup
    ||| phase == Phase::ReadingHostsLive
    ||| phase == Phase::SavingHosts
    ||| phase == Phase::StagingHostname
    ||| phase == Phase::BindingHostname
    ||| phase == Phase::ReadingHosts
    ||| phase == Phase::StagingHosts
    ||| phase == Phase::BindingHosts
    ||| phase == Phase::CapturingEnv
    ||| phase == Phase::WarningMissing
    ||| phase == Phase::SavingEnv
}

/// Whether the bottle is being stopped in `phase`, from the power-off to
/// the last removal.
pub open spec fn is_stopping(phase: Phase) -> bool {
    ||| phase == Phase::PoweringOff
    ||| phase == Phase::AwaitingExit
    ||| phase == Phase::PausingForExit
    ||| phase == Phase::UnbindingHostname
    ||| phase == Phase::UnbindingHosts
    ||| phase == Phase::ReadingHostsForRestore
    ||| phase == Phase::RestoringHosts
    ||| phase is Removing
}

/// Whether `action` changes a file of the host or what is bound over one.
pub open spec fn changes_files(action: ActionModel) -> bool {
    action is Write || action is Remove || action is Bind || action is Unbind
}

/// Whether `action` runs a program in the bottle's namespaces, or makes
/// or stops the bottle.
pub open spec fn enters_namespace(action: ActionModel) -> bool {
    match action {
        ActionModel::Spawn(_, _) => true,
        ActionModel::Launch(entry, _, _) => entry != Entry::Direct,
        _ => false,
    }
}

/// What holds of every state that a run reaches: root privilege is held
/// only during the work that needs it, and always while the bottle is made
/// or stopped.
pub open spec fn sound(c: ControllerModel) -> bool {
    &&& c.raised ==> is_working(c.phase)
    &&& is_making(c.phase) || is_stopping(c.phase) ==> c.raised
}

/// The state of a caller that was found inside the bottle and asked for a
/// shell or a command.
pub open spec fn stays_inside(c: ControllerModel) -> bool {
    &&& c.state == BottleState::ExistsInside
    &&& !c.raised
    &&& {
        ||| c.phase == Phase::Finished
        ||| c.request.operation == Operation::Run && {
            ||| c.phase == Phase::ReadingTerminal
            ||| c.phase == Phase::ReadingSavedEnv
            ||| c.phase == Phase::WarningNoEnv
            ||| c.phase == Phase::Launching
        }
    }
}

/// Whether a caller is just being found inside the bottle, having asked
/// for a shell or a command.
pub open spec fn found_inside(c: ControllerModel, e: EventModel) -> bool {
    &&& c.phase == Phase::Locating
    &&& !c.raised
    &&& e == EventModel::Pid(1)
    &&& (c.request.operation == Operation::Shell || c.request.operation == Operation::Run)
}

/// What holds of every single step from `c`, on the answer `e`, to `next`
/// with the action `action`.
pub open spec fn step_facts(
    c: ControllerModel,
    e: EventModel,
    next: ControllerModel,
    action: ActionModel,
) -> bool {
    &&& next.request == c.request
    &&& action matches ActionModel::SetUser(uid) ==> {
        &&& e is Done
        &&& (c.phase == Phase::RaisingGroup && uid == 0) || (c.phase == Phase::DroppingGroup && uid
            == c.request.caller.uid)
    }
    &&& next.phase == Phase::RaisingGroup ==> action == ActionModel::SetGroup(0)
    &&& next.phase == Phase::DroppingGroup ==> action == ActionModel::SetGroup(
        c.request.caller.gid,
    )
    &&& action is SetGroup ==> awaits_group(next.phase)
    &&& awaits_privilege(c.phase) && !(e is Done) ==> (next, action) == finish(
        c,
        Outcome::Failed(Failure::Privilege),
    )
    &&& c.phase == Phase::Finished ==> next == c && action == ActionModel::Finish(c.outcome)
    &&& sound(c) ==> sound(next)
    &&& sound(c) && action is Finish ==> !c.raised && !next.raised
    &&& is_early(c.phase) ==> !enters_namespace(action)
    &&& !is_early(c.phase) ==> !is_early(next.phase)
    &&& action matches ActionModel::Write(file, text) ==> {
        &&& file == HostFile::HostnameBackup ==> c.phase == Phase::ReadingHostname && e
            == EventModel::Text(text)
        &&& file == HostFile::HostsBackup ==> c.phase == Phase::ReadingHostsLive && e
            == EventModel::Text(text)
    }
    &&& next.phase == Phase::ReadingHostname ==> c.phase == Phase::ReadingHostnameBackup && e
        == EventModel::Missing && action == ActionModel::Read(HostFile::Hostname)
    &&& next.phase == Phase::ReadingHostsLive ==> c.phase == Phase::ReadingHostsBackup && e
        == EventModel::Missing && action == ActionModel::Read(HostFile::Hosts)
    &&& next.phase == Phase::ReadingHostnameBackup ==> action == ActionModel::Read(
        HostFile::HostnameBackup,
    )
    &&& next.phase == Phase::ReadingHostsBackup ==> action == ActionModel::Read(
        HostFile::HostsBackup,
    )
    &&& changes_files(action) ==> is_making(c.phase) || is_stopping(c.phase)
    &&& is_making(c.phase) ==> match action {
        ActionModel::Write(file, _) => is_artifact(file),
        ActionModel::Bind(source, target) => is_artifact(source) && !is_artifact(target),
        ActionModel::Remove(_) => false,
        ActionModel::Unbind(_) => false,
        _ => true,
    }
    &&& is_stopping(c.phase) ==> match action {
        ActionModel::Write(file, _) => file == HostFile::Hosts,
        ActionModel::Remove(file) => is_artifact(file),
        ActionModel::Unbind(target) => !is_artifact(target),
        ActionModel::Bind(_, _) => false,
        _ => true,
    }
    &&& stays_inside(c) || found_inside(c, e) ==> {
        &&& stays_inside(next)
        &&& !enters_namespace(action)
        &&& !(action is SetGroup)
        &&& !(action is SetUser)
    }
}

proof fn lemma_facts_start(c: ControllerModel, e: EventModel)
    requires
        c.phase == Phase::Idle,
    ensures
        step_facts(c, e, on_start(c, e).0, on_start(c, e).1),
{
}

proof fn lemma_facts_probe(c: ControllerModel, e: EventModel)
    requires
        c.phase == Phase::CheckingMounts || c.phase == Phase::CheckingMarker || c.phase
            == Phase::ReadingUser || c.phase == Phase::Locating || c.phase
            == Phase::CheckingInit,
    ensures
        step_facts(c, e, probe_step(c, e).0, probe_step(c, e).1),
{
}

proof fn lemma_facts_privilege(c: ControllerModel, e: EventModel)
    requires
        awaits_privilege(c.phase),
    ensures
        step_facts(c, e, privilege_step(c, e).0, privilege_step(c, e).1),
{
}

proof fn lemma_facts_backup(c: ControllerModel, e: EventModel)
    requires
        c.phase == Phase::ReadingHostnameBackup || c.phase == Phase::ReadingHostname || c.phase
            == Phase::SavingHostname || c.phase == Phase::ReadingHostsBackup || c.phase
            == Phase::ReadingHostsLive || c.phase == Phase::SavingHosts,
    ensures
        step_facts(c, e, backup_step(c, e).0, backup_step(c, e).1),
{
}

proof fn lemma_facts_install(c: ControllerModel, e: EventModel)
    requires
        c.phase == Phase::StagingHostname || c.phase == Phase::BindingHostname || c.phase
            == Phase::ReadingHosts || c.phase == Phase::StagingHosts || c.phase
            == Phase::BindingHosts,
    ensures
        step_facts(c, e, install_step(c, e).0, install_step(c, e).1),
{
}

proof fn lemma_facts_begin(c: ControllerModel, e: EventModel)
    requires
        c.phase == Phase::CapturingEnv || c.phase == Phase::WarningMissing || c.phase
            == Phase::SavingEnv || c.phase == Phase::StartingInit || c.phase == Phase::AwaitingInit
            || c.phase == Phase::PausingForInit,
    ensures
        step_facts(c, e, start_step(c, e).0, start_step(c, e).1),
{
}

proof fn lemma_facts_entry(c: ControllerModel, e: EventModel)
    requires
        c.phase == Phase::ReadingTerminal || c.phase == Phase::ReadingSavedEnv || c.phase
            == Phase::WarningNoEnv || c.phase == Phase::Launching,
    ensures
        step_facts(c, e, entry_step(c, e).0, entry_step(c, e).1),
{
}

proof fn lemma_facts_cleanup(c: ControllerModel, e: EventModel)
    requires
        c.phase == Phase::PoweringOff || c.phase == Phase::AwaitingExit || c.phase
            == Phase::PausingForExit || c.phase == Phase::UnbindingHostname || c.phase
            == Phase::UnbindingHosts || c.phase == Phase::ReadingHostsForRestore || c.phase
            == Phase::RestoringHosts || c.phase is Removing,
    ensures
        step_facts(c, e, cleanup_step(c, e).0, cleanup_step(c, e).1),
{
}

/// The facts hold of every step.
pub proof fn lemma_step_facts(c: ControllerModel, e: EventModel)
    ensures
        step_facts(c, e, step_model(c, e).0, step_model(c, e).1),
{
    reveal(step_model);
    match c.phase {
        Phase::Idle => lemma_facts_start(c, e),
        Phase::CheckingMounts
        | Phase::CheckingMarker
        | Phase::ReadingUser
        | Phase::Locating
        | Phase::CheckingInit => lemma_facts_probe(c, e),
        Phase::RaisingGroup
        | Phase::RaisingUser
        | Phase::DroppingGroup
        | Phase::DroppingUser => lemma_facts_privilege(c, e),
        Phase::ReadingHostnameBackup
        | Phase::ReadingHostname
        | Phase::SavingHostname
        | Phase::ReadingHostsBackup
        | Phase::ReadingHostsLive
        | Phase::SavingHosts => lemma_facts_backup(c, e),
        Phase::StagingHostname
        | Phase::BindingHostname
        | Phase::ReadingHosts
        | Phase::StagingHosts
        | Phase::BindingHosts => lemma_facts_install(c, e),
        Phase::CapturingEnv
        | Phase::WarningMissing
        | Phase::SavingEnv
        | Phase::StartingInit
        | Phase::AwaitingInit
        | Phase::PausingForInit => lemma_facts_begin(c, e),
        Phase::ReadingTerminal
        | Phase::ReadingSavedEnv
        | Phase::WarningNoEnv
        | Phase::Launching => lemma_facts_entry(c, e),
        Phase::PoweringOff
        | Phase::AwaitingExit
        | Phase::PausingForExit
        | Phase::UnbindingHostname
        | Phase::UnbindingHosts
        | Phase::ReadingHostsForRestore
        | Phase::RestoringHosts
        | Phase::Removing(_) => lemma_facts_cleanup(c, e),
        Phase::Finished => {},
    }
}

/// The user id is set only in answer to a group id that was set: to
/// root's after the group was set to root's, to the caller's after the
/// group was set to the caller's.
pub proof fn lemma_user_follows_group(c: ControllerModel, e: EventModel)
    ensures
        step_model(c, e).1 matches ActionModel::SetUser(uid) ==> {
            &&& e is Done
            &&& (c.phase == Phase::RaisingGroup && uid == 0) || (c.phase == Phase::DroppingGroup
                && uid == c.request.caller.uid)
        },
{
    lemma_step_facts(c, e);
}

/// The controller awaits the answer to a change of the group id exactly
/// when it has just asked for one.
pub proof fn lemma_group_is_asked(c: ControllerModel, e: EventModel)
    ensures
        step_model(c, e).0.phase == Phase::RaisingGroup ==> step_model(c, e).1
            == ActionModel::SetGroup(0),
        step_model(c, e).0.phase == Phase::DroppingGroup ==> step_model(c, e).1
            == ActionModel::SetGroup(c.request.caller.gid),
        step_model(c, e).1 is SetGroup ==> awaits_group(step_model(c, e).0.phase),
{
    lemma_step_facts(c, e);
}

/// A change of the group or user id that fails ends the operation at
/// once: nothing else is asked for.
pub proof fn lemma_privilege_failure_ends(c: ControllerModel, e: EventModel)
    requires
        awaits_privilege(c.phase),
        !(e is Done),
    ensures
        step_model(c, e) == finish(c, Outcome::Failed(Failure::Privilege)),
{
    lemma_step_facts(c, e);
}

/// The files that a bottle leaves have one owner. Files are changed only
/// with root privilege, while the bottle is made or stopped. While it is
/// made, only the files that it leaves are written, and bound over the
/// host's own; none is removed or freed. While it is stopped, only those
/// files are removed, only the host's own are freed, and nothing is
/// written but the hosts file that is put back.
pub proof fn lemma_files_have_one_owner(c: ControllerModel, e: EventModel)
    requires
        sound(c),
    ensures
        ({
            let action = step_model(c, e).1;
            &&& changes_files(action) ==> c.raised && (is_making(c.phase) || is_stopping(c.phase))
            &&& is_making(c.phase) ==> match action {
                ActionModel::Write(file, _) => is_artifact(file),
                ActionModel::Bind(source, target) => is_artifact(source) && !is_artifact(target),
                ActionModel::Remove(_) => false,
                ActionModel::Unbind(_) => false,
                _ => true,
            }
            &&& is_stopping(c.phase) ==> match action {
                ActionModel::Write(file, _) => file == HostFile::Hosts,
                ActionModel::Remove(file) => is_artifact(file),
                ActionModel::Unbind(target) => !is_artifact(target),
                ActionModel::Bind(_, _) => false,
                _ => true,
            }
        }),
{
    lemma_step_facts(c, e);
}

/// The file that `backup` is the backup of.
pub open spec fn backed_file(backup: HostFile) -> HostFile {
    if backup == HostFile::HostnameBackup {
        HostFile::Hostname
    } else {
        HostFile::Hosts
    }
}

/// In every run, whatever the driver answers, a backup is written only
/// after the driver was asked for it and has said that it is missing, and
/// then with the very text that the driver has read from the file that it
/// is the backup of: a backup that is there is never overwritten.
pub proof fn lemma_backup_only_when_missing(
    request: RequestModel,
    events: Seq<EventModel>,
    k: nat,
    backup: HostFile,
    text: Seq<char>,
)
    requires
        k < events.len(),
        backup == HostFile::HostnameBackup || backup == HostFile::HostsBackup,
        action_at(initial_model(request), events, k) == ActionModel::Write(backup, text),
    ensures
        k >= 2,
        action_at(initial_model(request), events, (k - 2) as nat) == ActionModel::Read(backup),
        events[k - 1] == EventModel::Missing,
        action_at(initial_model(request), events, (k - 1) as nat) == ActionModel::Read(
            backed_file(backup),
        ),
        events[k as int] == EventModel::Text(text),
{
    let c = initial_model(request);
    lemma_step_facts(state_at(c, events, k), events[k as int]);
    if k >= 1 {
        lemma_step_facts(state_at(c, events, (k - 1) as nat), events[k - 1]);
        if k >= 2 {
            lemma_step_facts(state_at(c, events, (k - 2) as nat), events[k - 2]);
        }
    }
}

/// After the end the controller asks for nothing but the end.
pub proof fn lemma_finished_stays(c: ControllerModel, events: Seq<EventModel>, k: nat, j: nat)
    requires
        k <= j < events.len(),
        state_at(c, events, k).phase == Phase::Finished,
    ensures
        state_at(c, events, j) == state_at(c, events, k),
        action_at(c, events, j) == ActionModel::Finish(state_at(c, events, k).outcome),
    decreases j,
{
    if j > k {
        lemma_finished_stays(c, events, k, (j - 1) as nat);
        lemma_step_facts(state_at(c, events, (j - 1) as nat), events[j - 1]);
    }
    lemma_step_facts(state_at(c, events, j), events[j as int]);
}

/// In every run, the user id is set only directly after the group id was
/// set, and only once that has succeeded.
pub proof fn lemma_group_before_user(request: RequestModel, events: Seq<EventModel>, k: nat)
    requires
        k < events.len(),
        action_at(initial_model(request), events, k) is SetUser,
    ensures
        k >= 1,
        action_at(initial_model(request), events, (k - 1) as nat) is SetGroup,
        events[k as int] is Done,
{
    let c = initial_model(request);
    lemma_user_follows_group(state_at(c, events, k), events[k as int]);
    if k >= 1 {
        lemma_group_is_asked(state_at(c, events, (k - 1) as nat), events[k - 1]);
    }
}

/// In every run, when setting the group id fails, the operation ends with
/// a privilege failure, and the user id is not set, then or later.
pub proof fn lemma_failed_group_stops(
    request: RequestModel,
    events: Seq<EventModel>,
    k: nat,
    j: nat,
)
    requires
        1 <= k <= j < events.len(),
        action_at(initial_model(request), events, (k - 1) as nat) is SetGroup,
        !(events[k as int] is Done),
    ensures
        action_at(initial_model(request), events, j) == ActionModel::Finish(
            Outcome::Failed(Failure::Privilege),
        ),
{
    let c = initial_model(request);
    lemma_group_is_asked(state_at(c, events, (k - 1) as nat), events[k - 1]);
    lemma_privilege_failure_ends(state_at(c, events, k), events[k as int]);
    if j > k {
        lemma_finished_stays(c, events, k + 1, j);
    }
}

/// One step keeps the state sound, and does not end the operation while
/// root privilege is held.
pub proof fn lemma_step_is_sound(c: ControllerModel, e: EventModel)
    requires
        sound(c),
    ensures
        sound(step_model(c, e).0),
        step_model(c, e).1 is Finish ==> !c.raised && !step_model(c, e).0.raised,
{
    lemma_step_facts(c, e);
}

/// Every state of a run is sound.
pub proof fn lemma_run_is_sound(request: RequestModel, events: Seq<EventModel>, k: nat)
    requires
        k <= events.len(),
    ensures
        sound(state_at(initial_model(request), events, k)),
    decreases k,
{
    if k > 0 {
        lemma_run_is_sound(request, events, (k - 1) as nat);
        lemma_step_is_sound(
            state_at(initial_model(request), events, (k - 1) as nat),
            events[k - 1],
        );
    }
}

/// In every run, the controller ends the operation only when it holds no
/// root privilege of its own doing: whatever path raised the privilege has
/// asked to give it back before.
pub proof fn lemma_never_ends_raised(request: RequestModel, events: Seq<EventModel>, k: nat)
    requires
        k < events.len(),
        action_at(initial_model(request), events, k) is Finish,
    ensures
        !state_at(initial_model(request), events, k).raised,
        !state_at(initial_model(request), events, k + 1).raised,
{
    lemma_run_is_sound(request, events, k);
    lemma_step_is_sound(state_at(initial_model(request), events, k), events[k as int]);
}

/// Before the bottle's state is known nothing is run and no privilege is
/// held, and what comes after never leads back there.
pub proof fn lemma_early_steps(c: ControllerModel, e: EventModel)
    ensures
        is_early(c.phase) ==> !enters_namespace(step_model(c, e).1),
        !is_early(c.phase) ==> !is_early(step_model(c, e).0.phase),
{
    lemma_step_facts(c, e);
}

/// Once the caller is found inside the bottle, a shell or command never
/// leads to an entry into its namespaces, nor to a change of privilege.
pub proof fn lemma_inside_step(c: ControllerModel, e: EventModel)
    requires
        stays_inside(c) || found_inside(c, e),
    ensures
        stays_inside(step_model(c, e).0),
        !enters_namespace(step_model(c, e).1),
        !(step_model(c, e).1 is SetGroup),
        !(step_model(c, e).1 is SetUser),
{
    lemma_step_facts(c, e);
}

proof fn lemma_early_before(c: ControllerModel, events: Seq<EventModel>, j: nat, k: nat)
    requires
        j <= k <= events.len(),
        is_early(state_at(c, events, k).phase),
    ensures
        is_early(state_at(c, events, j).phase),
    decreases k - j,
{
    if j < k {
        lemma_early_before(c, events, j + 1, k);
        lemma_early_steps(state_at(c, events, j), events[j as int]);
    }
}

proof fn lemma_inside_after(request: RequestModel, events: Seq<EventModel>, k: nat, j: nat)
    requires
        k < j <= events.len(),
        request.operation == Operation::Shell || request.operation == Operation::Run,
        state_at(initial_model(request), events, k).phase == Phase::Locating,
        events[k as int] == EventModel::Pid(1),
    ensures
        stays_inside(state_at(initial_model(request), events, j)),
    decreases j,
{
    let c = initial_model(request);
    lemma_same_request(c, events, (j - 1) as nat);
    if j == k + 1 {
        lemma_run_is_sound(request, events, k);
        lemma_inside_step(state_at(c, events, k), events[k as int]);
    } else {
        lemma_inside_after(request, events, k, (j - 1) as nat);
        lemma_inside_step(state_at(c, events, (j - 1) as nat), events[j - 1]);
    }
}

/// The request stays the same throughout a run.
pub proof fn lemma_same_request(c: ControllerModel, events: Seq<EventModel>, k: nat)
    requires
        k <= events.len(),
    ensures
        state_at(c, events, k).request == c.request,
    decreases k,
{
    if k > 0 {
        lemma_same_request(c, events, (k - 1) as nat);
        lemma_step_facts(state_at(c, events, (k - 1) as nat), events[k - 1]);
    }
}

/// In every run of a shell or a command in which the init is located with
/// process id 1, so that the caller is inside the bottle, no program is
/// ever run in the bottle's namespaces: the controller short-circuits.
pub proof fn lemma_inside_short_circuits(
    request: RequestModel,
    events: Seq<EventModel>,
    k: nat,
    j: nat,
)
    requires
        k < events.len(),
        j < events.len(),
        request.operation == Operation::Shell || request.operation == Operation::Run,
        state_at(initial_model(request), events, k).phase == Phase::Locating,
        events[k as int] == EventModel::Pid(1),
    ensures
        !enters_namespace(action_at(initial_model(request), events, j)),
{
    let c = initial_model(request);
    lemma_same_request(c, events, j);
    if j < k {
        lemma_early_before(c, events, j, k);
        lemma_early_steps(state_at(c, events, j), events[j as int]);
    } else if j == k {
        lemma_run_is_sound(request, events, k);
        lemma_inside_step(state_at(c, events, k), events[k as int]);
    } else {
        lemma_inside_after(request, events, k, j);
        lemma_inside_step(state_at(c, events, j), events[j as int]);
    }
}

} // verus!
