//! What whole operations do to a host on which every action succeeds: the
//! backups are written once and kept, and a cleanup puts the host back.

use crate::chars::is_field;
use crate::environ::{allow_list_names, missing_names, saved_text};
use crate::hosts::{host_name, hostname_file, lemma_patch_idempotent, patched_hosts};
use crate::launch::poweroff_model;
use crate::machine::{
    next_artifact, step_model, user_variable, ControllerModel, Phase, RequestModel,
};
use crate::probe::{root_kind, supports_bottles};
use crate::protocol::{is_artifact, ActionModel, HostFile, Job, Operation, Outcome};
use crate::world::{
    advance, advance_by, begin, lemma_performed, lemma_rounds_add, perform, reached, react,
    values_of, write_count, HostModel, Session,
};
use vstd::prelude::*;

verus! {

/// Whether nothing is bound on the host but the virtual files over the
/// files that they stand for.
pub open spec fn tidy(h: HostModel) -> bool {
    &&& forall|f: HostFile| #[trigger]
        h.bound.dom().contains(f) ==> (f == HostFile::Hostname && h.bound[f]
            == HostFile::StagedHostname) || (f == HostFile::Hosts && h.bound[f]
            == HostFile::StagedHosts)
    &&& h.bound.dom().contains(HostFile::Hostname) ==> h.files.dom().contains(
        HostFile::StagedHostname,
    )
    &&& h.bound.dom().contains(HostFile::Hosts) ==> h.files.dom().contains(HostFile::StagedHosts)
}

/// Whether a file that has no backup yet has nothing bound over it, so
/// that it still shows what the host itself holds.
pub open spec fn unspoiled(h: HostModel) -> bool {
    &&& !h.files.dom().contains(HostFile::HostnameBackup) ==> !h.bound.dom().contains(
        HostFile::Hostname,
    )
    &&& !h.files.dom().contains(HostFile::HostsBackup) ==> !h.bound.dom().contains(HostFile::Hosts)
}

/// Whether the host lets the operation `request` get to work: the caller
/// has root privilege and a login name, the host is the virtualized one,
/// the init program is installed, it has a hostname file and a hosts
/// file, and a new init would be seen from outside.
pub open spec fn ready(request: RequestModel, h: HostModel) -> bool {
    &&& request.effective_uid == 0
    &&& h.files.dom().contains(HostFile::Mounts)
    &&& supports_bottles(root_kind(h.files[HostFile::Mounts]))
    &&& h.marker
    &&& h.init_installed
    &&& h.env.dom().contains(user_variable())
    &&& h.files.dom().contains(HostFile::Hostname)
    &&& h.files.dom().contains(HostFile::Hosts)
    &&& h.next_pid > 1
    &&& tidy(h)
    &&& unspoiled(h)
}

proof fn lemma_one_round(s: Session)
    ensures
        advance_by(s, 1) == advance(s),
{
    assert(advance_by(s, 0) == s);
}

/// A session that awaits the answer to `action` in `phase`, with the
/// host as the action has left it.
#[verifier::opaque]
pub open spec fn awaiting(
    s: Session,
    phase: Phase,
    before: HostModel,
    action: ActionModel,
) -> bool {
    &&& !s.ended
    &&& s.controller.phase == phase
    &&& s.host == react(before, action).0
    &&& s.event == react(before, action).1
}

/// The first rounds of an operation on a host that is ready: the host is
/// probed and the init is located.
proof fn lemma_probe_rounds(request: RequestModel, h: HostModel) -> (s: Session)
    requires
        ready(request, h),
        request.operation == Operation::Run ==> request.command.len() > 0,
    ensures
        s == advance_by(begin(request, h), 4),
        awaiting(s, Phase::Locating, h, ActionModel::Locate),
        s.controller.request == request,
        !s.controller.raised,
        !s.controller.unbind_failed,
        s.controller.user == h.env[user_variable()],
{
    reveal(step_model);
    reveal(react);
    reveal(awaiting);
    let s0 = begin(request, h);
    let s1 = advance(s0);
    assert(s1.controller.phase == Phase::CheckingMounts);
    let s2 = advance(s1);
    assert(s2.controller.phase == Phase::CheckingMarker);
    let s3 = advance(s2);
    assert(values_of(h, seq![user_variable()])[0] == Some(h.env[user_variable()]));
    assert(s3.controller.phase == Phase::ReadingUser);
    let s4 = advance(s3);
    assert(s4.controller.phase == Phase::Locating);
    assert(advance_by(s0, 0) == s0);
    assert(advance_by(s0, 1) == s1);
    assert(advance_by(s0, 2) == s2);
    assert(advance_by(s0, 3) == s3);
    assert(advance_by(s0, 4) == s4);
    s4
}

/// The host with root's user and group id.
pub open spec fn as_root(h: HostModel) -> HostModel {
    HostModel { uid: 0, gid: 0, ..h }
}

/// The rounds in which the privilege is raised and the bottle is begun.
proof fn lemma_raise_rounds(s: Session, h: HostModel) -> (t: Session)
    requires
        awaiting(s, Phase::Locating, h, ActionModel::Locate),
        !s.controller.raised,
        h.init_pid == 0,
        h.init_installed,
        s.controller.request.operation != Operation::Cleanup,
    ensures
        t == advance_by(s, 4),
        awaiting(
            t,
            Phase::ReadingHostnameBackup,
            as_root(h),
            ActionModel::Read(HostFile::HostnameBackup),
        ),
        t.controller.raised,
        t.controller.request == s.controller.request,
        t.controller.user == s.controller.user,
        t.controller.pid == 0,
{
    reveal(step_model);
    reveal(react);
    reveal(awaiting);
    let s0 = advance(s);
    assert(s0.controller.phase == Phase::CheckingInit);
    let s1 = advance(s0);
    assert(s1.controller.phase == Phase::RaisingGroup);
    let s2 = advance(s1);
    assert(s2.controller.phase == Phase::RaisingUser);
    let s3 = advance(s2);
    assert(s3.controller.phase == Phase::ReadingHostnameBackup);
    assert(s3.host == as_root(h));
    assert(advance_by(s, 0) == s);
    assert(advance_by(s, 1) == s0);
    assert(advance_by(s, 2) == s1);
    assert(advance_by(s, 3) == s2);
    assert(advance_by(s, 4) == s3);
    s3
}

/// The host once `file` is backed up to `backup`: as it was if the backup
/// is there, else with the backup written from what `file` shows.
pub open spec fn backed_up(h: HostModel, file: HostFile, backup: HostFile) -> HostModel {
    if h.files.dom().contains(backup) {
        h
    } else {
        react(h, ActionModel::Write(backup, h.files[reached(h, file)])).0
    }
}

/// The host once both files are backed up.
pub open spec fn with_backups(h: HostModel) -> HostModel {
    backed_up(
        backed_up(h, HostFile::Hostname, HostFile::HostnameBackup),
        HostFile::Hosts,
        HostFile::HostsBackup,
    )
}

/// The rounds in which the hostname file is backed up.
proof fn lemma_hostname_backup_rounds(s: Session, h: HostModel) -> (r: (Session, nat))
    requires
        awaiting(s, Phase::ReadingHostnameBackup, h, ActionModel::Read(HostFile::HostnameBackup)),
        tidy(h),
        unspoiled(h),
        h.files.dom().contains(HostFile::Hostname),
    ensures
        r.1 <= 3,
        r.0 == advance_by(s, r.1),
        awaiting(
            r.0,
            Phase::ReadingHostsBackup,
            backed_up(h, HostFile::Hostname, HostFile::HostnameBackup),
            ActionModel::Read(HostFile::HostsBackup),
        ),
        r.0.controller == (ControllerModel {
            phase: Phase::ReadingHostsBackup,
            host_name: host_name(
                backed_up(
                    h,
                    HostFile::Hostname,
                    HostFile::HostnameBackup,
                ).files[HostFile::HostnameBackup],
            ),
            ..s.controller
        }),
{
    reveal(step_model);
    reveal(react);
    reveal(awaiting);
    assert(advance_by(s, 0) == s);
    let s1 = advance(s);
    assert(advance_by(s, 1) == s1);
    if h.files.dom().contains(HostFile::HostnameBackup) {
        assert(s1.controller.phase == Phase::ReadingHostsBackup);
        (s1, 1)
    } else {
        assert(s1.controller.phase == Phase::ReadingHostname);
        let s2 = advance(s1);
        assert(s2.controller.phase == Phase::SavingHostname);
        let s3 = advance(s2);
        assert(s3.controller.phase == Phase::ReadingHostsBackup);
        assert(advance_by(s, 2) == s2);
        assert(advance_by(s, 3) == s3);
        (s3, 3)
    }
}

/// The rounds in which the hosts file is backed up.
proof fn lemma_hosts_backup_rounds(s: Session, h: HostModel) -> (r: (Session, nat))
    requires
        awaiting(s, Phase::ReadingHostsBackup, h, ActionModel::Read(HostFile::HostsBackup)),
        tidy(h),
        unspoiled(h),
        h.files.dom().contains(HostFile::Hosts),
    ensures
        r.1 <= 3,
        r.0 == advance_by(s, r.1),
        awaiting(
            r.0,
            Phase::StagingHostname,
            backed_up(h, HostFile::Hosts, HostFile::HostsBackup),
            ActionModel::Write(
                HostFile::StagedHostname,
                hostname_file(s.controller.host_name + s.controller.request.config.suffix),
            ),
        ),
        r.0.controller == (ControllerModel { phase: Phase::StagingHostname, ..s.controller }),
{
    reveal(step_model);
    reveal(react);
    reveal(awaiting);
    assert(advance_by(s, 0) == s);
    let s1 = advance(s);
    assert(advance_by(s, 1) == s1);
    if h.files.dom().contains(HostFile::HostsBackup) {
        assert(s1.controller.phase == Phase::StagingHostname);
        (s1, 1)
    } else {
        assert(s1.controller.phase == Phase::ReadingHostsLive);
        let s2 = advance(s1);
        assert(s2.controller.phase == Phase::SavingHosts);
        let s3 = advance(s2);
        assert(s3.controller.phase == Phase::StagingHostname);
        assert(advance_by(s, 2) == s2);
        assert(advance_by(s, 3) == s3);
        (s3, 3)
    }
}

/// The host once the virtual files for the bottle `name` of the host
/// `plain` are in place: both are written, the hosts file from what it
/// shows at that time, and bound over the files that they stand for.
pub open spec fn installed(h: HostModel, plain: Seq<char>, name: Seq<char>) -> HostModel {
    let h1 = react(h, ActionModel::Write(HostFile::StagedHostname, hostname_file(name))).0;
    let h2 = react(h1, ActionModel::Bind(HostFile::StagedHostname, HostFile::Hostname)).0;
    let shown = h2.files[reached(h2, HostFile::Hosts)];
    let h3 = react(
        h2,
        ActionModel::Write(HostFile::StagedHosts, patched_hosts(shown, plain, name)),
    ).0;
    react(h3, ActionModel::Bind(HostFile::StagedHosts, HostFile::Hosts)).0
}

/// The rounds in which the virtual files are put in place.
proof fn lemma_install_rounds(s: Session, h: HostModel) -> (t: Session)
    requires
        awaiting(
            s,
            Phase::StagingHostname,
            h,
            ActionModel::Write(
                HostFile::StagedHostname,
                hostname_file(s.controller.host_name + s.controller.request.config.suffix),
            ),
        ),
        tidy(h),
        h.files.dom().contains(HostFile::Hosts),
    ensures
        t == advance_by(s, 5),
        awaiting(
            t,
            Phase::CapturingEnv,
            installed(
                h,
                s.controller.host_name,
                s.controller.host_name + s.controller.request.config.suffix,
            ),
            ActionModel::Lookup(allow_list_names()),
        ),
        t.controller == (ControllerModel { phase: Phase::CapturingEnv, ..s.controller }),
{
    reveal(step_model);
    reveal(react);
    reveal(awaiting);
    let s1 = advance(s);
    assert(s1.controller.phase == Phase::BindingHostname);
    let s2 = advance(s1);
    assert(s2.controller.phase == Phase::ReadingHosts);
    let s3 = advance(s2);
    assert(s3.controller.phase == Phase::StagingHosts);
    let s4 = advance(s3);
    assert(s4.controller.phase == Phase::BindingHosts);
    let s5 = advance(s4);
    assert(s5.controller.phase == Phase::CapturingEnv);
    assert(advance_by(s, 0) == s);
    assert(advance_by(s, 1) == s1);
    assert(advance_by(s, 2) == s2);
    assert(advance_by(s, 3) == s3);
    assert(advance_by(s, 4) == s4);
    assert(advance_by(s, 5) == s5);
    s5
}

/// The host once the environment is saved and the init is started.
pub open spec fn started(h: HostModel) -> HostModel {
    let text = saved_text(allow_list_names(), values_of(h, allow_list_names()));
    let h1 = react(h, ActionModel::Write(HostFile::SavedEnvironment, text)).0;
    HostModel { init_pid: h.next_pid, ..h1 }
}

/// The rounds in which the environment is saved, the init is started and
/// found in the process table.
proof fn lemma_start_rounds(s: Session, h: HostModel) -> (r: (Session, nat))
    requires
        awaiting(s, Phase::CapturingEnv, h, ActionModel::Lookup(allow_list_names())),
        h.next_pid != 0,
    ensures
        r.1 <= 4,
        r.0 == advance_by(s, r.1),
        awaiting(r.0, Phase::AwaitingInit, started(h), ActionModel::Locate),
        r.0.controller.phase == Phase::AwaitingInit,
        r.0.controller.request == s.controller.request,
        r.0.controller.raised == s.controller.raised,
        r.0.controller.user == s.controller.user,
        r.0.controller.state == s.controller.state,
{
    reveal(step_model);
    reveal(react);
    reveal(awaiting);
    let names = allow_list_names();
    let missing = missing_names(names, values_of(h, names), names.len());
    assert(advance_by(s, 0) == s);
    let s1 = advance(s);
    assert(advance_by(s, 1) == s1);
    if missing.len() > 0 {
        assert(s1.controller.phase == Phase::WarningMissing);
        let s2 = advance(s1);
        assert(s2.controller.phase == Phase::SavingEnv);
        let s3 = advance(s2);
        assert(s3.controller.phase == Phase::StartingInit);
        let s4 = advance(s3);
        assert(s4.controller.phase == Phase::AwaitingInit);
        assert(advance_by(s, 2) == s2);
        assert(advance_by(s, 3) == s3);
        assert(advance_by(s, 4) == s4);
        (s4, 4)
    } else {
        assert(s1.controller.phase == Phase::SavingEnv);
        let s2 = advance(s1);
        assert(s2.controller.phase == Phase::StartingInit);
        let s3 = advance(s2);
        assert(s3.controller.phase == Phase::AwaitingInit);
        assert(advance_by(s, 2) == s2);
        assert(advance_by(s, 3) == s3);
        (s3, 3)
    }
}

/// The host with the user and group id of the caller who made `request`.
pub open spec fn as_caller(h: HostModel, request: RequestModel) -> HostModel {
    HostModel { uid: request.caller.uid, gid: request.caller.gid, ..h }
}

/// The rounds in which the privilege is given back and the operation
/// ends, once the controller has asked for the caller's group id.
proof fn lemma_drop_rounds(s: Session, h: HostModel) -> (t: Session)
    requires
        awaiting(
            s,
            Phase::DroppingGroup,
            h,
            ActionModel::SetGroup(s.controller.request.caller.gid),
        ),
    ensures
        t == advance_by(s, 2),
        t.ended,
        t.host == as_caller(h, s.controller.request),
        t.controller.outcome == s.controller.outcome,
        t.controller.raised == s.controller.raised,
{
    reveal(step_model);
    reveal(react);
    reveal(awaiting);
    let s1 = advance(s);
    assert(s1.controller.phase == Phase::DroppingUser);
    let s2 = advance(s1);
    assert(s2.ended);
    assert(advance_by(s, 0) == s);
    assert(advance_by(s, 1) == s1);
    assert(advance_by(s, 2) == s2);
    s2
}

/// The round in which the new init is found and the privilege is about to
/// be given back.
proof fn lemma_found_round(s: Session, h: HostModel) -> (t: Session)
    requires
        awaiting(s, Phase::AwaitingInit, h, ActionModel::Locate),
        h.init_pid != 0,
        s.controller.request.operation == Operation::Init,
        s.controller.raised,
    ensures
        t == advance_by(s, 1),
        awaiting(
            t,
            Phase::DroppingGroup,
            h,
            ActionModel::SetGroup(s.controller.request.caller.gid),
        ),
        t.controller.request == s.controller.request,
        t.controller.outcome == Outcome::Completed,
        !t.controller.raised,
{
    reveal(step_model);
    reveal(react);
    reveal(awaiting);
    let s1 = advance(s);
    assert(s1.controller.phase == Phase::DroppingGroup);
    assert(advance_by(s, 0) == s);
    assert(advance_by(s, 1) == s1);
    s1
}

/// Backing a file up keeps the host in order.
proof fn lemma_backed_up_keeps(h: HostModel, file: HostFile, backup: HostFile)
    requires
        tidy(h),
        unspoiled(h),
        h.files.dom().contains(HostFile::Hostname),
        h.files.dom().contains(HostFile::Hosts),
        (file == HostFile::Hostname && backup == HostFile::HostnameBackup) || (file
            == HostFile::Hosts && backup == HostFile::HostsBackup),
    ensures
        tidy(backed_up(h, file, backup)),
        unspoiled(backed_up(h, file, backup)),
        backed_up(h, file, backup).files.dom().contains(HostFile::Hostname),
        backed_up(h, file, backup).files.dom().contains(HostFile::Hosts),
        backed_up(h, file, backup).files.dom().contains(backup),
        backed_up(h, file, backup).next_pid == h.next_pid,
        backed_up(h, file, backup).init_pid == h.init_pid,
        file == HostFile::Hosts ==> backed_up(h, file, backup).files[HostFile::HostnameBackup]
            == h.files[HostFile::HostnameBackup],
{
    reveal(react);
}

/// Putting the virtual files in place and starting the init gives the
/// init the process id that was next.
proof fn lemma_started_pid(h: HostModel, plain: Seq<char>, name: Seq<char>)
    ensures
        installed(h, plain, name).next_pid == h.next_pid,
        started(h).init_pid == h.next_pid,
        started(h).next_pid == h.next_pid,
{
    reveal(react);
}

/// What a host is after the bottle was made on it.
pub open spec fn after_init(request: RequestModel, h: HostModel) -> HostModel {
    let backed = with_backups(as_root(h));
    let plain = host_name(backed.files[HostFile::HostnameBackup]);
    as_caller(started(installed(backed, plain, plain + request.config.suffix)), request)
}

/// On a host that is ready and has no init, making the bottle runs to its
/// end and leaves the host as [`after_init`] says.
pub proof fn lemma_init_performed(request: RequestModel, h: HostModel)
    requires
        request.operation == Operation::Init,
        ready(request, h),
        h.init_pid == 0,
    ensures
        perform(request, h).ended,
        perform(request, h).controller.outcome == Outcome::Completed,
        !perform(request, h).controller.raised,
        perform(request, h).host == after_init(request, h),
{
    let s0 = begin(request, h);
    let a = lemma_probe_rounds(request, h);
    let b = lemma_raise_rounds(a, h);
    let root = as_root(h);
    let h1 = backed_up(root, HostFile::Hostname, HostFile::HostnameBackup);
    let h2 = backed_up(h1, HostFile::Hosts, HostFile::HostsBackup);
    assert(tidy(root) && unspoiled(root));
    assert(root.next_pid == h.next_pid);
    lemma_backed_up_keeps(root, HostFile::Hostname, HostFile::HostnameBackup);
    lemma_backed_up_keeps(h1, HostFile::Hosts, HostFile::HostsBackup);
    let (c, nc) = lemma_hostname_backup_rounds(b, root);
    let (d, nd) = lemma_hosts_backup_rounds(c, h1);
    let plain = host_name(h2.files[HostFile::HostnameBackup]);
    assert(d.controller.host_name == plain);
    let e = lemma_install_rounds(d, h2);
    let h3 = installed(h2, plain, plain + request.config.suffix);
    lemma_started_pid(h2, plain, plain + request.config.suffix);
    lemma_started_pid(h3, plain, plain);
    let (f, nf) = lemma_start_rounds(e, h3);
    let h4 = started(h3);
    let g = lemma_found_round(f, h4);
    let z = lemma_drop_rounds(g, h4);
    assert(z == advance_by(s0, 16 + nc + nd + nf)) by {
        lemma_rounds_add(s0, 4, 4);
        lemma_rounds_add(s0, 8, nc);
        lemma_rounds_add(s0, 8 + nc, nd);
        lemma_rounds_add(s0, 8 + nc + nd, 5);
        lemma_rounds_add(s0, 13 + nc + nd, nf);
        lemma_rounds_add(s0, 13 + nc + nd + nf, 1);
        lemma_rounds_add(s0, 14 + nc + nd + nf, 2);
    }
    lemma_performed(request, h, 16 + nc + nd + nf);
}

/// What [`after_init`] says of the backups and of the state of the host.
proof fn lemma_after_init_facts(request: RequestModel, h: HostModel)
    requires
        ready(request, h),
    ensures
        ({
            let g = after_init(request, h);
            &&& ready(request, g)
            &&& g.init_pid == h.next_pid
            &&& g.files.dom().contains(HostFile::HostnameBackup)
            &&& g.files.dom().contains(HostFile::HostsBackup)
            &&& g.files[HostFile::Hostname] == h.files[HostFile::Hostname]
            &&& g.files[HostFile::Hosts] == h.files[HostFile::Hosts]
            &&& g.bound.dom().contains(HostFile::Hostname)
            &&& g.bound.dom().contains(HostFile::Hosts)
            &&& g.uid == request.caller.uid
            &&& g.gid == request.caller.gid
            &&& h.files.dom().contains(HostFile::HostnameBackup) ==> {
                &&& g.files[HostFile::HostnameBackup] == h.files[HostFile::HostnameBackup]
                &&& write_count(g, HostFile::HostnameBackup) == write_count(
                    h,
                    HostFile::HostnameBackup,
                )
            }
            &&& !h.files.dom().contains(HostFile::HostnameBackup) ==> {
                &&& g.files[HostFile::HostnameBackup] == h.files[HostFile::Hostname]
                &&& write_count(g, HostFile::HostnameBackup) == write_count(
                    h,
                    HostFile::HostnameBackup,
                ) + 1
            }
            &&& h.files.dom().contains(HostFile::HostsBackup) ==> {
                &&& g.files[HostFile::HostsBackup] == h.files[HostFile::HostsBackup]
                &&& write_count(g, HostFile::HostsBackup) == write_count(h, HostFile::HostsBackup)
            }
            &&& !h.files.dom().contains(HostFile::HostsBackup) ==> {
                &&& g.files[HostFile::HostsBackup] == h.files[HostFile::Hosts]
                &&& write_count(g, HostFile::HostsBackup) == write_count(h, HostFile::HostsBackup)
                    + 1
            }
        }),
{
    reveal(react);
    let root = as_root(h);
    let h1 = backed_up(root, HostFile::Hostname, HostFile::HostnameBackup);
    let h2 = backed_up(h1, HostFile::Hosts, HostFile::HostsBackup);
    let plain = host_name(h2.files[HostFile::HostnameBackup]);
    let name = plain + request.config.suffix;
    let a1 = react(h2, ActionModel::Write(HostFile::StagedHostname, hostname_file(name))).0;
    let a2 = react(a1, ActionModel::Bind(HostFile::StagedHostname, HostFile::Hostname)).0;
    let shown = a2.files[reached(a2, HostFile::Hosts)];
    let a3 = react(
        a2,
        ActionModel::Write(HostFile::StagedHosts, patched_hosts(shown, plain, name)),
    ).0;
    let h3 = react(a3, ActionModel::Bind(HostFile::StagedHosts, HostFile::Hosts)).0;
    assert(h3 == installed(h2, plain, name));
    let h4 = started(h3);
    let g = as_caller(h4, request);
    assert(g == after_init(request, h));
    assert(tidy(h2) && unspoiled(h2));
    assert(tidy(g));
}

/// On a host that is ready and has an init, the bottle is not made again:
/// the operation ends at once and the host stays as it is.
pub proof fn lemma_init_skipped(request: RequestModel, h: HostModel)
    requires
        request.operation == Operation::Init,
        ready(request, h),
        h.init_pid != 0,
    ensures
        perform(request, h).ended,
        perform(request, h).controller.outcome == Outcome::AlreadyExists,
        perform(request, h).host == h,
{
    let s0 = begin(request, h);
    let a = lemma_probe_rounds(request, h);
    let b = advance(a);
    assert(b.ended && b.host == h && b.controller.outcome == Outcome::AlreadyExists) by {
        reveal(step_model);
        reveal(react);
        reveal(awaiting);
    }
    lemma_one_round(a);
    lemma_rounds_add(s0, 4, 1);
    lemma_performed(request, h, 5);
}

/// The host after its init has gone without a cleanup.
pub open spec fn crashed(h: HostModel) -> HostModel {
    HostModel { init_pid: 0, ..h }
}

/// The host after one more attempt to make the bottle for each item of
/// `fates`; before an attempt whose item is `true` the init has gone
/// without a cleanup.
pub open spec fn after_inits(request: RequestModel, h: HostModel, fates: Seq<bool>) -> HostModel
    decreases fates.len(),
{
    if fates.len() == 0 {
        h
    } else {
        let before = after_inits(request, h, fates.drop_last());
        if fates.last() {
            perform(request, crashed(before)).host
        } else {
            perform(request, before).host
        }
    }
}

/// The backups are written once: on a host that is ready, has no bottle
/// and no backups, the first `init` writes each backup once, from what the
/// host held before, and however often `init` is called again, with or
/// without the init having gone in between, the backups stay what they
/// are and are not written again.
pub proof fn lemma_backups_written_once(request: RequestModel, h: HostModel, fates: Seq<bool>)
    requires
        request.operation == Operation::Init,
        ready(request, h),
        h.init_pid == 0,
        !h.files.dom().contains(HostFile::HostnameBackup),
        !h.files.dom().contains(HostFile::HostsBackup),
    ensures
        ({
            let g = after_inits(request, perform(request, h).host, fates);
            &&& ready(request, g)
            &&& g.init_pid != 0
            &&& g.files.dom().contains(HostFile::HostnameBackup)
            &&& g.files.dom().contains(HostFile::HostsBackup)
            &&& g.files[HostFile::HostnameBackup] == h.files[HostFile::Hostname]
            &&& g.files[HostFile::HostsBackup] == h.files[HostFile::Hosts]
            &&& write_count(g, HostFile::HostnameBackup) == write_count(
                h,
                HostFile::HostnameBackup,
            ) + 1
            &&& write_count(g, HostFile::HostsBackup) == write_count(h, HostFile::HostsBackup) + 1
        }),
    decreases fates.len(),
{
    if fates.len() == 0 {
        lemma_init_performed(request, h);
        lemma_after_init_facts(request, h);
    } else {
        lemma_backups_written_once(request, h, fates.drop_last());
        let before = after_inits(request, perform(request, h).host, fates.drop_last());
        if fates.last() {
            let gone = crashed(before);
            assert(ready(request, gone));
            lemma_init_performed(request, gone);
            lemma_after_init_facts(request, gone);
            assert(write_count(gone, HostFile::HostnameBackup) == write_count(
                before,
                HostFile::HostnameBackup,
            ));
            assert(write_count(gone, HostFile::HostsBackup) == write_count(
                before,
                HostFile::HostsBackup,
            ));
        } else {
            lemma_init_skipped(request, before);
        }
    }
}

/// The rounds in which the privilege is raised and the bottle is asked to
/// stop.
proof fn lemma_raise_cleanup_rounds(s: Session, h: HostModel) -> (t: Session)
    requires
        awaiting(s, Phase::Locating, h, ActionModel::Locate),
        !s.controller.raised,
        h.init_pid > 1,
        s.controller.request.operation == Operation::Cleanup,
    ensures
        t == advance_by(s, 3),
        awaiting(
            t,
            Phase::PoweringOff,
            as_root(h),
            ActionModel::Spawn(Job::PowerOff, poweroff_model(h.init_pid as int)),
        ),
        t.controller.raised,
        t.controller.request == s.controller.request,
        t.controller.unbind_failed == s.controller.unbind_failed,
{
    reveal(step_model);
    reveal(react);
    reveal(awaiting);
    let s1 = advance(s);
    assert(s1.controller.phase == Phase::RaisingGroup);
    let s2 = advance(s1);
    assert(s2.controller.phase == Phase::RaisingUser);
    let s3 = advance(s2);
    assert(s3.controller.phase == Phase::PoweringOff);
    assert(advance_by(s, 0) == s);
    assert(advance_by(s, 1) == s1);
    assert(advance_by(s, 2) == s2);
    assert(advance_by(s, 3) == s3);
    s3
}

/// The host once the init has gone and both files are free again.
pub open spec fn released(h: HostModel) -> HostModel {
    HostModel {
        init_pid: 0,
        bound: h.bound.remove(HostFile::Hostname).remove(HostFile::Hosts),
        ..h
    }
}

/// The rounds in which the init powers off and both files are freed.
proof fn lemma_release_rounds(s: Session, h: HostModel, pid: int) -> (t: Session)
    requires
        awaiting(
            s,
            Phase::PoweringOff,
            h,
            ActionModel::Spawn(Job::PowerOff, poweroff_model(pid)),
        ),
        h.bound.dom().contains(HostFile::Hostname),
        h.bound.dom().contains(HostFile::Hosts),
        !s.controller.unbind_failed,
    ensures
        t == advance_by(s, 4),
        awaiting(
            t,
            Phase::ReadingHostsForRestore,
            released(h),
            ActionModel::Read(HostFile::HostsBackup),
        ),
        t.controller.raised == s.controller.raised,
        t.controller.request == s.controller.request,
{
    reveal(step_model);
    reveal(react);
    reveal(awaiting);
    let s1 = advance(s);
    assert(s1.controller.phase == Phase::AwaitingExit);
    let s2 = advance(s1);
    assert(s2.controller.phase == Phase::UnbindingHostname);
    let s3 = advance(s2);
    assert(s3.controller.phase == Phase::UnbindingHosts);
    let s4 = advance(s3);
    assert(s4.controller.phase == Phase::ReadingHostsForRestore);
    assert(s4.host == released(h));
    assert(advance_by(s, 0) == s);
    assert(advance_by(s, 1) == s1);
    assert(advance_by(s, 2) == s2);
    assert(advance_by(s, 3) == s3);
    assert(advance_by(s, 4) == s4);
    s4
}

/// The host once the hosts file is put back from its backup.
pub open spec fn put_back(h: HostModel) -> HostModel {
    HostModel {
        files: h.files.insert(HostFile::Hosts, h.files[HostFile::HostsBackup]),
        writes: h.writes.insert(HostFile::Hosts, write_count(h, HostFile::Hosts) + 1),
        ..h
    }
}

/// The host once what the bottle left is removed.
pub open spec fn cleared(h: HostModel) -> HostModel {
    HostModel {
        files: h.files.remove(HostFile::SavedEnvironment).remove(HostFile::StagedHosts).remove(
            HostFile::StagedHostname,
        ).remove(HostFile::HostsBackup).remove(HostFile::HostnameBackup),
        ..h
    }
}

/// The host once the hosts file is put back and what the bottle left is
/// removed.
pub open spec fn restored(h: HostModel) -> HostModel {
    cleared(put_back(h))
}

/// The rounds in which the hosts file is put back.
proof fn lemma_restore_rounds(s: Session, h: HostModel) -> (t: Session)
    requires
        awaiting(s, Phase::ReadingHostsForRestore, h, ActionModel::Read(HostFile::HostsBackup)),
        h.files.dom().contains(HostFile::HostsBackup),
        !h.bound.dom().contains(HostFile::Hosts),
        !h.bound.dom().contains(HostFile::HostsBackup),
    ensures
        t == advance_by(s, 2),
        awaiting(
            t,
            Phase::Removing(HostFile::SavedEnvironment),
            put_back(h),
            ActionModel::Remove(HostFile::SavedEnvironment),
        ),
        t.controller.request == s.controller.request,
        t.controller.raised == s.controller.raised,
{
    reveal(step_model);
    reveal(react);
    reveal(awaiting);
    let s1 = advance(s);
    assert(s1.controller.phase == Phase::RestoringHosts);
    assert(s1.host == put_back(h));
    let s2 = advance(s1);
    assert(s2.controller.phase == Phase::Removing(HostFile::SavedEnvironment));
    assert(advance_by(s, 0) == s);
    assert(advance_by(s, 1) == s1);
    assert(advance_by(s, 2) == s2);
    s2
}

/// The host without the file `file`.
pub open spec fn without(h: HostModel, file: HostFile) -> HostModel {
    HostModel { files: h.files.remove(file), ..h }
}

/// One round in which a file is removed and the next removal is asked for.
proof fn lemma_remove_round(s: Session, h: HostModel, file: HostFile, next: HostFile) -> (t:
    Session)
    requires
        awaiting(s, Phase::Removing(file), h, ActionModel::Remove(file)),
        next_artifact(file) == Some(next),
    ensures
        t == advance_by(s, 1),
        awaiting(t, Phase::Removing(next), without(h, file), ActionModel::Remove(next)),
        t.controller.request == s.controller.request,
        t.controller.raised == s.controller.raised,
{
    reveal(step_model);
    reveal(react);
    reveal(awaiting);
    let s1 = advance(s);
    assert(s1.controller.phase == Phase::Removing(next));
    assert(react(h, ActionModel::Remove(file)).0.files =~= without(h, file).files);
    assert(advance_by(s, 0) == s);
    assert(advance_by(s, 1) == s1);
    s1
}

/// The round in which the last file is removed and the privilege is about
/// to be given back.
proof fn lemma_last_remove_round(s: Session, h: HostModel) -> (t: Session)
    requires
        awaiting(
            s,
            Phase::Removing(HostFile::HostnameBackup),
            h,
            ActionModel::Remove(HostFile::HostnameBackup),
        ),
        s.controller.raised,
    ensures
        t == advance_by(s, 1),
        awaiting(
            t,
            Phase::DroppingGroup,
            without(h, HostFile::HostnameBackup),
            ActionModel::SetGroup(s.controller.request.caller.gid),
        ),
        t.controller.request == s.controller.request,
        t.controller.outcome == Outcome::Completed,
        !t.controller.raised,
{
    reveal(step_model);
    reveal(react);
    reveal(awaiting);
    let s1 = advance(s);
    assert(s1.controller.phase == Phase::DroppingGroup);
    assert(react(h, ActionModel::Remove(HostFile::HostnameBackup)).0.files =~= without(
        h,
        HostFile::HostnameBackup,
    ).files);
    assert(advance_by(s, 0) == s);
    assert(advance_by(s, 1) == s1);
    s1
}

/// The rounds in which what the bottle left is removed.
proof fn lemma_remove_rounds(s: Session, h: HostModel) -> (t: Session)
    requires
        awaiting(
            s,
            Phase::Removing(HostFile::SavedEnvironment),
            h,
            ActionModel::Remove(HostFile::SavedEnvironment),
        ),
        s.controller.raised,
    ensures
        t == advance_by(s, 5),
        awaiting(
            t,
            Phase::DroppingGroup,
            cleared(h),
            ActionModel::SetGroup(s.controller.request.caller.gid),
        ),
        t.controller.request == s.controller.request,
        t.controller.outcome == Outcome::Completed,
        !t.controller.raised,
{
    let h1 = without(h, HostFile::SavedEnvironment);
    let h2 = without(h1, HostFile::StagedHosts);
    let h3 = without(h2, HostFile::StagedHostname);
    let h4 = without(h3, HostFile::HostsBackup);
    let s1 = lemma_remove_round(s, h, HostFile::SavedEnvironment, HostFile::StagedHosts);
    let s2 = lemma_remove_round(s1, h1, HostFile::StagedHosts, HostFile::StagedHostname);
    let s3 = lemma_remove_round(s2, h2, HostFile::StagedHostname, HostFile::HostsBackup);
    let s4 = lemma_remove_round(s3, h3, HostFile::HostsBackup, HostFile::HostnameBackup);
    let s5 = lemma_last_remove_round(s4, h4);
    assert(without(h4, HostFile::HostnameBackup) == cleared(h));
    lemma_rounds_add(s, 1, 1);
    lemma_rounds_add(s, 2, 1);
    lemma_rounds_add(s, 3, 1);
    lemma_rounds_add(s, 4, 1);
    s5
}

/// What a host is after the bottle was stopped on it.
pub open spec fn after_cleanup(request: RequestModel, h: HostModel) -> HostModel {
    as_caller(restored(released(as_root(h))), request)
}

/// On a host that is ready and holds a bottle with its backup of the
/// hosts file, seen from outside, a cleanup runs to its end and leaves the
/// host as [`after_cleanup`] says.
pub proof fn lemma_cleanup_performed(request: RequestModel, h: HostModel)
    requires
        request.operation == Operation::Cleanup,
        ready(request, h),
        h.init_pid > 1,
        h.bound.dom().contains(HostFile::Hostname),
        h.bound.dom().contains(HostFile::Hosts),
        h.files.dom().contains(HostFile::HostsBackup),
    ensures
        perform(request, h).ended,
        perform(request, h).controller.outcome == Outcome::Completed,
        !perform(request, h).controller.raised,
        perform(request, h).host == after_cleanup(request, h),
{
    let s0 = begin(request, h);
    let a = lemma_probe_rounds(request, h);
    let b = lemma_raise_cleanup_rounds(a, h);
    let root = as_root(h);
    let c = lemma_release_rounds(b, root, h.init_pid as int);
    let free = released(root);
    assert(free.files == h.files && !free.bound.dom().contains(HostFile::Hosts));
    let d = lemma_restore_rounds(c, free);
    let e = lemma_remove_rounds(d, put_back(free));
    let z = lemma_drop_rounds(e, restored(free));
    assert(z == advance_by(s0, 20)) by {
        lemma_rounds_add(s0, 4, 3);
        lemma_rounds_add(s0, 7, 4);
        lemma_rounds_add(s0, 11, 2);
        lemma_rounds_add(s0, 13, 5);
        lemma_rounds_add(s0, 18, 2);
    }
    lemma_performed(request, h, 20);
}

/// Whether the host holds nothing of a bottle: no file that one leaves,
/// nothing bound, no init.
pub open spec fn pristine(h: HostModel) -> bool {
    &&& forall|f: HostFile| is_artifact(f) ==> !#[trigger] h.files.dom().contains(f)
    &&& forall|f: HostFile| !#[trigger] h.bound.dom().contains(f)
    &&& h.init_pid == 0
}

/// Cleanup restores the hosts file and removes what the bottle left: on a
/// host that is ready and holds a bottle with its backup of the hosts
/// file, seen from outside, the hosts file holds after the cleanup what
/// the backup held, none of the files that the bottle leaves is there any
/// more, nothing is bound over the hostname or the hosts file, the init
/// has gone, and the process is the caller's again.
pub proof fn lemma_cleanup_restores(request: RequestModel, h: HostModel)
    requires
        request.operation == Operation::Cleanup,
        ready(request, h),
        h.init_pid > 1,
        h.bound.dom().contains(HostFile::Hostname),
        h.bound.dom().contains(HostFile::Hosts),
        h.files.dom().contains(HostFile::HostsBackup),
    ensures
        ({
            let s = perform(request, h);
            &&& s.ended
            &&& s.controller.outcome == Outcome::Completed
            &&& s.host.files.dom().contains(HostFile::Hosts)
            &&& s.host.files[HostFile::Hosts] == h.files[HostFile::HostsBackup]
            &&& forall|f: HostFile| is_artifact(f) ==> !#[trigger] s.host.files.dom().contains(f)
            &&& forall|f: HostFile| !#[trigger] s.host.bound.dom().contains(f)
            &&& s.host.init_pid == 0
            &&& s.host.uid == request.caller.uid
            &&& s.host.gid == request.caller.gid
        }),
{
    lemma_cleanup_performed(request, h);
}

/// Making the bottle touches no file but those that the bottle leaves.
proof fn lemma_after_init_files(request: RequestModel, h: HostModel)
    requires
        ready(request, h),
    ensures
        forall|f: HostFile|
            !is_artifact(f) ==> (#[trigger] after_init(request, h).files.dom().contains(f)
                <==> h.files.dom().contains(f)) && after_init(request, h).files[f] == h.files[f],
        after_init(request, h).env == h.env,
        after_init(request, h).marker == h.marker,
        after_init(request, h).init_installed == h.init_installed,
        after_init(request, h).next_pid == h.next_pid,
{
    reveal(react);
    let root = as_root(h);
    let h1 = backed_up(root, HostFile::Hostname, HostFile::HostnameBackup);
    let h2 = backed_up(h1, HostFile::Hosts, HostFile::HostsBackup);
    let plain = host_name(h2.files[HostFile::HostnameBackup]);
    let name = plain + request.config.suffix;
    let a1 = react(h2, ActionModel::Write(HostFile::StagedHostname, hostname_file(name))).0;
    let a2 = react(a1, ActionModel::Bind(HostFile::StagedHostname, HostFile::Hostname)).0;
    let shown = a2.files[reached(a2, HostFile::Hosts)];
    let a3 = react(
        a2,
        ActionModel::Write(HostFile::StagedHosts, patched_hosts(shown, plain, name)),
    ).0;
    let h3 = react(a3, ActionModel::Bind(HostFile::StagedHosts, HostFile::Hosts)).0;
    assert(h3 == installed(h2, plain, name));
    assert(tidy(h2));
}

/// Cleanup undoes init: on a host that is ready and holds nothing of a
/// bottle, making the bottle and then stopping it leaves every file of
/// the host as it was, the hosts file byte for byte, with nothing bound,
/// no init, and the process the caller's again.
pub proof fn lemma_cleanup_undoes_init(request: RequestModel, h: HostModel)
    requires
        request.operation == Operation::Init,
        ready(request, h),
        pristine(h),
    ensures
        ({
            let made = perform(request, h).host;
            let undone = perform(
                RequestModel { operation: Operation::Cleanup, ..request },
                made,
            ).host;
            &&& made.files[HostFile::HostsBackup] == h.files[HostFile::Hosts]
            &&& undone.files[HostFile::Hosts] == made.files[HostFile::HostsBackup]
            &&& undone.files == h.files
            &&& undone.bound == h.bound
            &&& undone.init_pid == 0
            &&& undone.uid == request.caller.uid
            &&& undone.gid == request.caller.gid
        }),
{
    let stop = RequestModel { operation: Operation::Cleanup, ..request };
    lemma_init_performed(request, h);
    lemma_after_init_facts(request, h);
    lemma_after_init_files(request, h);
    let made = perform(request, h).host;
    assert(ready(stop, made));
    lemma_cleanup_performed(stop, made);
    let undone = perform(stop, made).host;
    assert(undone.files =~= h.files) by {
        assert forall|f: HostFile| undone.files.dom().contains(f) == h.files.dom().contains(
            f,
        ) by {
            if !is_artifact(f) {
                assert(made.files.dom().contains(f) <==> h.files.dom().contains(f));
            }
        }
        assert forall|f: HostFile| h.files.dom().contains(f) implies undone.files[f]
            == h.files[f] by {
            if !is_artifact(f) {
                assert(made.files.dom().contains(f) <==> h.files.dom().contains(f));
            }
        }
    }
    assert(undone.bound =~= h.bound) by {
        assert(tidy(made));
    }
}

/// What the virtual files and the saved environment hold after the bottle
/// was made.
proof fn lemma_after_init_texts(request: RequestModel, h: HostModel)
    requires
        ready(request, h),
    ensures
        ({
            let g = after_init(request, h);
            let plain = host_name(g.files[HostFile::HostnameBackup]);
            let name = plain + request.config.suffix;
            &&& g.files.dom().contains(HostFile::StagedHostname)
            &&& g.files.dom().contains(HostFile::StagedHosts)
            &&& g.files.dom().contains(HostFile::SavedEnvironment)
            &&& g.files[HostFile::StagedHostname] == hostname_file(name)
            &&& g.files[HostFile::StagedHosts] == patched_hosts(
                h.files[reached(h, HostFile::Hosts)],
                plain,
                name,
            )
            &&& g.files[HostFile::SavedEnvironment] == saved_text(
                allow_list_names(),
                values_of(h, allow_list_names()),
            )
            &&& forall|f: HostFile| #[trigger]
                g.bound.dom().contains(f) <==> f == HostFile::Hostname || f == HostFile::Hosts
        }),
{
    reveal(react);
    let root = as_root(h);
    let h1 = backed_up(root, HostFile::Hostname, HostFile::HostnameBackup);
    let h2 = backed_up(h1, HostFile::Hosts, HostFile::HostsBackup);
    let plain = host_name(h2.files[HostFile::HostnameBackup]);
    let name = plain + request.config.suffix;
    let a1 = react(h2, ActionModel::Write(HostFile::StagedHostname, hostname_file(name))).0;
    let a2 = react(a1, ActionModel::Bind(HostFile::StagedHostname, HostFile::Hostname)).0;
    let shown = a2.files[reached(a2, HostFile::Hosts)];
    let a3 = react(
        a2,
        ActionModel::Write(HostFile::StagedHosts, patched_hosts(shown, plain, name)),
    ).0;
    let h3 = react(a3, ActionModel::Bind(HostFile::StagedHosts, HostFile::Hosts)).0;
    assert(h3 == installed(h2, plain, name));
    assert(tidy(h2));
    assert(shown == h.files[reached(h, HostFile::Hosts)]);
    assert(values_of(h3, allow_list_names()) == values_of(h, allow_list_names()));
}

/// Making the bottle is idempotent: on a host that is ready and holds
/// nothing of a bottle, where the bottle's name is a field, making the
/// bottle again after its init has gone leaves every file as the first
/// time left it, the virtual hosts file among them, and the same files
/// bound. This holds of the model, which keeps one binding for each file;
/// it says nothing of how many bindings a kernel has stacked.
pub proof fn lemma_second_init_changes_nothing(request: RequestModel, h: HostModel)
    requires
        request.operation == Operation::Init,
        ready(request, h),
        pristine(h),
        is_field(host_name(h.files[HostFile::Hostname]) + request.config.suffix),
    ensures
        ({
            let once = perform(request, h).host;
            let twice = perform(request, crashed(once)).host;
            &&& twice.files == once.files
            &&& twice.bound == once.bound
            &&& twice.init_pid == once.init_pid
        }),
{
    lemma_init_performed(request, h);
    lemma_after_init_facts(request, h);
    lemma_after_init_files(request, h);
    lemma_after_init_texts(request, h);
    let once = perform(request, h).host;
    let gone = crashed(once);
    assert(ready(request, gone));
    lemma_init_performed(request, gone);
    lemma_after_init_facts(request, gone);
    lemma_after_init_files(request, gone);
    lemma_after_init_texts(request, gone);
    let twice = perform(request, gone).host;
    let plain = host_name(h.files[HostFile::Hostname]);
    let name = plain + request.config.suffix;
    assert(tidy(once));
    assert(reached(gone, HostFile::Hosts) == HostFile::StagedHosts);
    assert(reached(h, HostFile::Hosts) == HostFile::Hosts);
    lemma_patch_idempotent(h.files[HostFile::Hosts], plain, name);
    assert(values_of(gone, allow_list_names()) == values_of(h, allow_list_names()));
    assert(twice.files =~= once.files) by {
        assert forall|f: HostFile| twice.files.dom().contains(f) == once.files.dom().contains(
            f,
        ) by {
            if !is_artifact(f) {
                assert(twice.files.dom().contains(f) <==> gone.files.dom().contains(f));
            }
        }
        assert forall|f: HostFile| once.files.dom().contains(f) implies twice.files[f]
            == once.files[f] by {
            if !is_artifact(f) {
                assert(twice.files.dom().contains(f) <==> gone.files.dom().contains(f));
            }
        }
    }
    assert(twice.bound =~= once.bound) by {
        assert(tidy(twice));
    }
}

} // verus!
