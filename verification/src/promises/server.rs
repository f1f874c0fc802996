//! How the daemon starts, keeps its socket, serves and ends.

use vstd::prelude::*;

use crate::daemon::owners::CreationFlightOwner;
use crate::daemon::server::{
    first_start_stage, prepare_socket_path, readiness_line, readiness_members, readiness_record,
    record_native_wait_failure, serve_with_manager, service_outcome, start_service,
    IncarnationFailure, PathFacts, ServeEvent, ServeStep, ServerError, ServiceEnd, SocketEvent,
    SocketGuard, SocketStage, SocketStep, StartFailure, StartMode, StartStage, StartStep,
};
use crate::daemon::upgrade::UpgradeAbort;
use crate::identity::{DaemonInstanceId, RunId};
use crate::text::joined_all;

verus! {

/// A path is freed in one order. What is there is removed only if it is a
/// socket, answered neither of two probes, and was the same socket at three
/// looks.
pub proof fn law_a_socket_is_removed_only_after_its_checks(
    path: &str,
    parent: &str,
    stage: SocketStage,
    event: SocketEvent,
    next: SocketStage,
)
    requires
        call_ensures(prepare_socket_path, (path, parent, stage, event), SocketStep::Perform(next)),
    ensures
        match next {
            SocketStage::CreateParent => false,
            SocketStage::TestExistence => stage is CreateParent && (event matches SocketEvent::Done(
                Ok(_),
            )),
            SocketStage::FirstLook => stage is TestExistence && event == SocketEvent::Exists(true),
            SocketStage::FirstProbe { checked } => stage is FirstLook && (
            event matches SocketEvent::Looked(Ok(facts)) && facts.is_socket && facts.identity
                == checked),
            SocketStage::SecondLook { checked } => stage == (SocketStage::FirstProbe { checked })
                && event == SocketEvent::Probed(false),
            SocketStage::SecondProbe { checked } => stage == (SocketStage::SecondLook { checked })
                && (event matches SocketEvent::Looked(Ok(facts)) && facts.is_socket
                && facts.identity == checked),
            SocketStage::LastLook { checked } => stage == (SocketStage::SecondProbe { checked })
                && event == SocketEvent::Probed(false),
            SocketStage::Remove { checked } => stage == (SocketStage::LastLook { checked }) && (
            event matches SocketEvent::Looked(Ok(facts)) && facts.is_socket && facts.identity
                == checked),
        },
{
}

/// A path is free where nothing is there, where what was there went away
/// between the probes, or once it was removed.
pub proof fn law_a_path_is_free_where_nothing_is(
    path: &str,
    parent: &str,
    stage: SocketStage,
    event: SocketEvent,
)
    requires
        call_ensures(prepare_socket_path, (path, parent, stage, event), SocketStep::Free),
    ensures
        (stage is TestExistence && event == SocketEvent::Exists(false)) || (stage is SecondLook && (
        event matches SocketEvent::Looked(Err(failure)) && failure.not_found)) || (stage is Remove
            && (event matches SocketEvent::Done(Ok(_)))),
{
}

/// A daemon that answers is running; a socket that was replaced is left alone;
/// what is no socket is never replaced.
pub proof fn law_a_socket_in_use_is_left_alone(
    path: &str,
    parent: &str,
    stage: SocketStage,
    event: SocketEvent,
    step: SocketStep,
)
    requires
        call_ensures(prepare_socket_path, (path, parent, stage, event), step),
    ensures
        (stage is FirstProbe || stage is SecondProbe) && event == SocketEvent::Probed(true) ==> (
        step matches SocketStep::Failed(ServerError::AlreadyRunning(at)) && at@ == path@),
        stage is FirstLook && (event matches SocketEvent::Looked(Ok(facts)) && !facts.is_socket)
            ==> (step matches SocketStep::Failed(ServerError::InvalidSocketTarget(at)) && at@
            == path@),
        event matches SocketEvent::Looked(Ok(facts)) ==> match stage {
            SocketStage::SecondLook { checked } | SocketStage::LastLook { checked } =>
                facts.is_socket && facts.identity == checked || (step matches SocketStep::Failed(
                ServerError::SocketTargetChanged(at),
            ) && at@ == path@),
            _ => true,
        },
        stage is LastLook && (event matches SocketEvent::Looked(Err(_))) ==> step is Failed,
        stage is Remove && (event matches SocketEvent::Done(Err(_))) ==> step is Failed,
        stage is CreateParent && (event matches SocketEvent::Done(Err(_))) ==> step is Failed,
{
}

/// The daemon guards the socket that it made, and removes that one only.
pub proof fn law_a_guard_removes_its_own_socket(
    path: String,
    seen: Result<PathFacts, String>,
    made: Result<SocketGuard, ServerError>,
    guard: SocketGuard,
    later: Option<PathFacts>,
    removes: bool,
)
    requires
        call_ensures(SocketGuard::new, (path, seen), made),
        call_ensures(SocketGuard::removes, (&guard, later), removes),
    ensures
        made is Ok <==> (seen matches Ok(facts) && facts.is_socket),
        made matches Ok(kept) ==> kept.path == path && kept.identity == seen->Ok_0.identity,
        seen matches Ok(facts) && !facts.is_socket ==> made == Err::<SocketGuard, ServerError>(
            ServerError::SocketTargetChanged(path),
        ),
        removes <==> (later matches Some(facts) && facts.is_socket && facts.identity.device
            == guard.identity.device && facts.identity.inode == guard.identity.inode),
{
}

/// Only the first failure of an incarnation counts.
pub proof fn law_the_first_failure_counts(
    fresh: IncarnationFailure,
    failure: &mut IncarnationFailure,
    message: String,
    recorded: bool,
)
    requires
        call_ensures(IncarnationFailure::new, (), fresh),
        call_ensures(IncarnationFailure::record, (failure, message), recorded),
    ensures
        fresh@ is None,
        recorded <==> old(failure)@ is None,
        old(failure)@ is None ==> final(failure)@ == Some(message@),
        old(failure)@ is Some ==> final(failure)@ == old(failure)@,
{
}

/// A Run that nobody can wait for any more ends the incarnation: no creation is
/// taken, and the failure is recorded unless there was one.
pub proof fn law_a_lost_wait_ends_the_incarnation(
    flights: &mut CreationFlightOwner,
    failure: &mut IncarnationFailure,
    run_id: RunId,
    error: &str,
)
    requires
        call_ensures(record_native_wait_failure, (flights, failure, run_id, error), ()),
    ensures
        !final(flights)@.accepting,
        final(flights)@.active == old(flights)@.active,
        final(flights)@.granted == old(flights)@.granted,
        final(failure)@ is Some,
        old(failure)@ is Some ==> final(failure)@ == old(failure)@,
{
}

/// A start takes its stages in one order, by its mode: after a handoff the
/// manifest comes first and the listener is taken over; otherwise the path is
/// prepared, bound and restricted. Readiness is announced, where it is asked
/// for, once the socket is guarded, and the daemon serves last.
pub proof fn law_a_start_comes_in_order(
    path: &str,
    mode: StartMode,
    announces: bool,
    stage: StartStage,
    outcome: Result<(), StartFailure>,
    next: StartStage,
)
    requires
        call_ensures(
            start_service,
            (path, mode, announces, stage, outcome),
            StartStep::Perform(next),
        ),
    ensures
        outcome is Ok,
        match stage {
            StartStage::ReadManifest => next is ClaimMasters,
            StartStage::ClaimMasters => next is ClaimStateLock,
            StartStage::ClaimStateLock => next is OpenState,
            StartStage::OpenState => next is OpenStats,
            StartStage::OpenStats => next is BuildManager,
            StartStage::BuildManager => if mode == StartMode::Handoff {
                next is AdoptListener
            } else {
                next is PreparePath
            },
            StartStage::AdoptListener => next is GuardSocket,
            StartStage::PreparePath => next is Bind,
            StartStage::Bind => next is RestrictPath,
            StartStage::RestrictPath => next is GuardSocket,
            StartStage::GuardSocket => if announces {
                next is AnnounceReadiness
            } else {
                next is WatchHangup
            },
            StartStage::AnnounceReadiness => next is WatchHangup,
            StartStage::WatchHangup => next is Serve,
            StartStage::Serve => next is Serve,
        },
{
}

/// A start begins by its mode, and a stage that failed ends it: with the failure
/// that the stage brought, or with its words.
pub proof fn law_a_failed_start_says_why(
    mode: StartMode,
    first: StartStage,
    path: &str,
    announces: bool,
    stage: StartStage,
    failure: StartFailure,
    step: StartStep,
)
    requires
        call_ensures(first_start_stage, (mode,), first),
        call_ensures(start_service, (path, mode, announces, stage, Err(failure)), step),
    ensures
        mode == StartMode::Memory <==> first is OpenStats,
        mode == StartMode::Durable <==> first is OpenState,
        mode == StartMode::Handoff <==> first is ReadManifest,
        match failure {
            StartFailure::Io(source) => step matches StartStep::Failed(
                ServerError::Io { source: why, .. },
            ) && why@ == source@,
            StartFailure::Server(error) => step == StartStep::Failed(error),
            StartFailure::Adoption(message) => step == StartStep::Failed(
                ServerError::Adopt(message),
            ),
        },
{
}

/// The announcement of readiness is the encoded record and the end of a line.
pub proof fn law_readiness_is_one_line(
    encoded: Result<Vec<u8>, String>,
    r: Result<Vec<u8>, ServerError>,
)
    requires
        call_ensures(readiness_line, (encoded,), r),
    ensures
        r is Ok <==> encoded is Ok,
        encoded matches Ok(text) ==> r->Ok_0@.len() == text@.len() + 1 && r->Ok_0@.drop_last()
            == text@ && r->Ok_0@.last() == 10,
{
    if let Ok(text) = encoded {
        assert(r->Ok_0@.drop_last() =~= text@);
    }
}

/// The daemon serves every connection that comes. It upgrades on a hangup only
/// with durable records and a known state directory. It shuts down when it is
/// interrupted, when its incarnation failed, and when an upgrade failed behind
/// the point of no return; before that point it serves on.
pub proof fn law_the_daemon_does_what_its_event_asks(
    path: &str,
    persistent: bool,
    has_state_dir: bool,
    event: ServeEvent,
    incarnation: &mut IncarnationFailure,
    step: ServeStep,
)
    requires
        call_ensures(
            serve_with_manager,
            (path, persistent, has_state_dir, event, incarnation),
            step,
        ),
    ensures
        step is HandleConnection <==> (event matches ServeEvent::Connected(Ok(_))),
        step is Upgrade <==> event is HungUp && persistent && has_state_dir,
        event is HungUp && !(persistent && has_state_dir) ==> step is Log,
        step matches ServeStep::ShutDown(ServiceEnd::Interrupted) <==> (
        event matches ServeEvent::Interrupted(Ok(_))),
        event matches ServeEvent::IncarnationFailed(failure) ==> step == ServeStep::ShutDown(
            ServiceEnd::IncarnationFailed(failure),
        ),
        event matches ServeEvent::UpgradeAborted(UpgradeAbort::BeforeExtract(_)) ==> step is Log,
        event matches ServeEvent::UpgradeAborted(UpgradeAbort::AfterExtract(_)) ==> (
        step matches ServeStep::ShutDown(ServiceEnd::UpgradeFailed(_)))
            && final(incarnation)@ is Some,
        step is Return <==> (event matches ServeEvent::Connected(Err(_))) || (
        event matches ServeEvent::Interrupted(Err(_))),
        !(event matches ServeEvent::UpgradeAborted(UpgradeAbort::AfterExtract(_)))
            ==> final(incarnation)@ == old(incarnation)@,
        old(incarnation)@ is Some ==> final(incarnation)@ == old(incarnation)@,
{
}

/// An interrupted service ends as its shutdown did; one that failed ends in a
/// failure, whatever the shutdown came to.
pub proof fn law_a_failed_service_ends_in_failure(
    end: ServiceEnd,
    shutdown: Result<(), ServerError>,
    r: Result<(), ServerError>,
)
    requires
        call_ensures(service_outcome, (end, shutdown), r),
    ensures
        end is Interrupted ==> r == shutdown,
        !(end is Interrupted) ==> (r matches Err(ServerError::Shutdown { .. })),
        end matches ServiceEnd::UpgradeFailed(message) ==> (r matches Err(
            ServerError::Shutdown { failures },
        ) && failures@ == message@),
        end matches ServiceEnd::IncarnationFailed(failure) ==> (r matches Err(
            ServerError::Shutdown { failures },
        ) && failures@.len() >= failure@.len() && failures@.take(failure@.len() as int)
            == failure@),
{
    if let ServiceEnd::IncarnationFailed(failure) = end {
        let failures = r->Err_0->failures@;
        assert(failures.take(failure@.len() as int) =~= failure@);
    }
}

/// The line of readiness is a record of the daemon's incarnation and of its
/// schema.
pub proof fn law_readiness_names_the_incarnation(
    instance: DaemonInstanceId,
    r: Result<Vec<u8>, ServerError>,
)
    requires
        call_ensures(readiness_record, (instance,), r),
    ensures
        r matches Ok(line) && line@ == ("{\"daemon_instance\":\""@ + instance.text()
            + "\",\"schema\":\"ctxmux.daemon-ready.v1\"}\n"@).map_values(|c: char| c as u8),
{
    let members = readiness_members(instance);
    let quoted = members.map_values(
        |member: (Seq<char>, Seq<char>)|
            seq!['"'] + member.0 + seq!['"', ':', '"'] + member.1 + seq!['"'],
    );
    let first = seq!['"'] + "daemon_instance"@ + seq!['"', ':', '"'] + instance.text() + seq!['"'];
    let second = seq!['"'] + "schema"@ + seq!['"', ':', '"'] + "ctxmux.daemon-ready.v1"@
        + seq!['"'];
    assert(quoted =~= seq![first, second]);
    assert(quoted.drop_last() =~= seq![first]);
    assert(joined_all(seq![first], seq![',']) == first);
    assert(joined_all(quoted, seq![',']) == first + seq![','] + second);
    let text = seq!['{'] + (first + seq![','] + second) + seq!['}'];
    reveal_strlit("{\"daemon_instance\":\"");
    reveal_strlit("\",\"schema\":\"ctxmux.daemon-ready.v1\"}\n");
    reveal_strlit("daemon_instance");
    reveal_strlit("schema");
    reveal_strlit("ctxmux.daemon-ready.v1");
    let told = "{\"daemon_instance\":\""@ + instance.text()
        + "\",\"schema\":\"ctxmux.daemon-ready.v1\"}\n"@;
    assert(told =~= text.push('\n'));
    assert(text.map_values(|c: char| c as u8).push(10u8) =~= told.map_values(|c: char| c as u8));
}

} // verus!
