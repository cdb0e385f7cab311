use denocore::inspector::poll_begin;
use denocore::inspector::poll_end;
use denocore::inspector::sessions_state;
use denocore::inspector::wake;
use denocore::inspector::CdpMessage;
use denocore::inspector::CdpParams;
use denocore::inspector::CdpResult;
use denocore::inspector::InspectorMsg;
use denocore::inspector::InspectorMsgKind;
use denocore::inspector::InspectorRouter;
use denocore::inspector::InspectorSessionKind;
use denocore::inspector::Outgoing;
use denocore::inspector::PollState;
use denocore::inspector::PollStep;
use denocore::inspector::SessionRegistry;
use denocore::inspector::TargetInfo;
use denocore::inspector::WakeAction;

fn no_params() -> CdpParams {
    CdpParams {
        wait_for_debugger_on_start: None,
        message: None,
        session_id: None,
        discover: None,
        auto_attach: None,
        target_id: None,
        flatten: None,
    }
}

fn msg(method: &str, id: Option<i64>, params: CdpParams) -> CdpMessage {
    CdpMessage { session_id: None, method: Some(method.to_string()), id, params }
}

fn router_with_targets() -> InspectorRouter {
    let mut r = InspectorRouter::new();
    for n in 0..2 {
        r.register_target(TargetInfo {
            target_id: format!("worker-{n}"),
            session_id: format!("session-{n}"),
            local_session_id: n + 2,
            url: format!("file:///w{n}.js"),
        });
    }
    r
}

#[test]
fn sessions_state_summarizes_kinds() {
    let kinds = vec![
        InspectorSessionKind::Blocking,
        InspectorSessionKind::NonBlocking { wait_for_disconnect: false },
    ];
    let s = sessions_state(0, false, &kinds);
    assert!(s.has_active && s.has_blocking && s.has_nonblocking);
    assert!(!s.has_nonblocking_wait_for_disconnect);
    let s = sessions_state(0, false, &vec![]);
    assert!(!s.has_active && !s.has_blocking);
    let s = sessions_state(1, false, &vec![InspectorSessionKind::NonBlocking { wait_for_disconnect: true }]);
    assert!(s.has_active && s.has_nonblocking_wait_for_disconnect);
}

#[test]
fn poll_state_machine() {
    assert_eq!(poll_begin(PollState::Idle), PollState::Polling);
    assert_eq!(poll_end(PollState::Polling, false), (PollState::Idle, PollStep::Yield));
    assert_eq!(poll_end(PollState::Polling, true), (PollState::Parked, PollStep::Park));
    assert_eq!(poll_end(PollState::Woken, true), (PollState::Polling, PollStep::PollAgain));
    assert_eq!(wake(PollState::Idle), (PollState::Woken, WakeAction::WakeTaskAndInterrupt));
    assert_eq!(wake(PollState::Parked), (PollState::Woken, WakeAction::Unpark));
    assert_eq!(wake(PollState::Polling), (PollState::Woken, WakeAction::Nothing));
    assert_eq!(wake(PollState::Dropped), (PollState::Woken, WakeAction::Nothing));
}

#[test]
fn registry_first_session_is_main() {
    let mut reg = SessionRegistry::new();
    assert_eq!(reg.main_session_id(), None);
    assert_eq!(reg.register(), 1);
    assert_eq!(reg.register(), 2);
    assert_eq!(reg.main_session_id(), Some(1));
}

#[test]
fn inspector_messages() {
    let m = InspectorMsg { kind: InspectorMsgKind::Message(3), content: "{}".to_string() };
    assert_eq!(m.kind, InspectorMsgKind::Message(3));
    assert_eq!(m.content, "{}");
}

#[test]
fn worker_messages_are_not_dispatched() {
    let mut r = router_with_targets();
    let mut m = msg("Runtime.evaluate", Some(1), no_params());
    m.session_id = Some("session-0".to_string());
    let (dispatch, out) = r.route_session_message("raw", Some(&m));
    assert!(!dispatch);
    assert!(out.is_empty());
    m.session_id = Some(String::new());
    let (dispatch, out) = r.route_session_message("raw", Some(&m));
    assert!(dispatch);
    assert!(out.is_empty());
    let (dispatch, _) = r.route_session_message("not json", None);
    assert!(dispatch);
}

#[test]
fn node_worker_enable_announces_workers() {
    let mut r = router_with_targets();
    let (dispatch, out) = r.route_session_message("x", Some(&msg("NodeWorker.enable", Some(5), no_params())));
    assert!(!dispatch);
    assert_eq!(
        out,
        vec![
            Outgoing::Response { id: 5, result: CdpResult::Empty },
            Outgoing::AttachedToWorker { target: 0 },
            Outgoing::AttachedToWorker { target: 1 },
        ]
    );
    let (_, out) = r.route_session_message("x", Some(&msg("NodeWorker.other", None, no_params())));
    assert!(out.is_empty());
    let (_, out) = r.route_session_message("x", Some(&msg("NodeWorker.x", Some(1 << 32 | 7), no_params())));
    assert_eq!(out, vec![Outgoing::Response { id: 7, result: CdpResult::Empty }]);
}

#[test]
fn target_auto_attach_attaches_once() {
    let mut r = router_with_targets();
    let mut p = no_params();
    p.auto_attach = Some(true);
    let (dispatch, out) = r.route_session_message("x", Some(&msg("Target.setAutoAttach", Some(2), p)));
    assert!(!dispatch);
    assert!(r.auto_attach_enabled());
    assert_eq!(
        out,
        vec![
            Outgoing::Response { id: 2, result: CdpResult::Empty },
            Outgoing::AttachedToTarget { target: 0, attached: false, waiting_for_debugger: true },
            Outgoing::AttachedToTarget { target: 1, attached: false, waiting_for_debugger: true },
        ]
    );
    assert!(r.is_attached(0) && r.is_attached(1));
    let mut p = no_params();
    p.discover = Some(true);
    let (_, out) = r.route_session_message("x", Some(&msg("Target.setDiscoverTargets", Some(3), p)));
    assert_eq!(out, vec![Outgoing::Response { id: 3, result: CdpResult::Empty }]);
    let (_, _) = r.route_session_message("x", Some(&msg("Target.setAutoAttach", None, no_params())));
    assert!(!r.auto_attach_enabled());
}

#[test]
fn target_attach_to_target_by_id() {
    let mut r = router_with_targets();
    let mut p = no_params();
    p.target_id = Some("worker-1".to_string());
    let (_, out) = r.route_session_message("x", Some(&msg("Target.attachToTarget", Some(9), p)));
    assert_eq!(
        out,
        vec![
            Outgoing::Response { id: 9, result: CdpResult::TargetSession(1) },
            Outgoing::AttachedToTarget { target: 1, attached: true, waiting_for_debugger: false },
        ]
    );
    assert!(r.is_attached(1) && !r.is_attached(0));
    assert_eq!(r.target(1).session_id, "session-1");
    let mut p = no_params();
    p.target_id = Some("worker-9".to_string());
    let (_, out) = r.route_session_message("x", Some(&msg("Target.attachToTarget", Some(10), p)));
    assert_eq!(out, vec![Outgoing::Response { id: 10, result: CdpResult::Empty }]);
}

#[test]
fn breakpoints_are_stored_and_dispatched() {
    let mut r = InspectorRouter::new();
    let raw = "{\"method\":\"Debugger.setBreakpointByUrl\"}";
    let (dispatch, out) = r.route_session_message(raw, Some(&msg("Debugger.setBreakpointByUrl", Some(1), no_params())));
    assert!(dispatch);
    assert!(out.is_empty());
    assert_eq!(r.stored_breakpoints(), &vec![raw.to_string()]);
}
