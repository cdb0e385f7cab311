//! The inspector's bookkeeping: its messages and sessions, the state
//! machine of its polling, and how messages from a debugger frontend are
//! routed between the main session, workers and V8.
use vstd::prelude::*;
use vstd::string::*;
use vstd::utf8::*;
use crate::text::{bytes_starts_with, starts_with, str_eq};

verus! {

/// What kind of message the inspector sends to a frontend.
#[derive(Clone, Copy, Debug, PartialEq, Eq, Structural)]
pub enum InspectorMsgKind {
    Notification,
    /// The response to the request with this id.
    Message(i32),
}

/// A message the inspector sends to a frontend.
#[derive(Debug)]
pub struct InspectorMsg {
    pub kind: InspectorMsgKind,
    pub content: String,
}

/// Whether a session keeps the event loop alive.
#[derive(Clone, Copy, Debug, PartialEq, Eq, Structural)]
pub enum InspectorSessionKind {
    Blocking,
    NonBlocking { wait_for_disconnect: bool },
}

/// What the inspector's sessions ask of the event loop.
#[derive(Debug)]
pub struct SessionsState {
    pub has_active: bool,
    pub has_blocking: bool,
    pub has_nonblocking: bool,
    pub has_nonblocking_wait_for_disconnect: bool,
}

/// The state of the sessions: `established` sessions are being pumped, one
/// may be in its handshake, and `local_kinds` are the kinds of the
/// registered sessions.
pub fn sessions_state(
    established: usize,
    handshake: bool,
    local_kinds: &Vec<InspectorSessionKind>,
) -> (r: SessionsState)
    ensures
        r.has_active == (established > 0 || handshake || local_kinds@.len() > 0),
        r.has_blocking == exists|i: int|
            0 <= i < local_kinds@.len() && local_kinds@[i] == InspectorSessionKind::Blocking,
        r.has_nonblocking == exists|i: int|
            0 <= i < local_kinds@.len() && local_kinds@[i] is NonBlocking,
        r.has_nonblocking_wait_for_disconnect == exists|i: int|
            0 <= i < local_kinds@.len() && local_kinds@[i] == (InspectorSessionKind::NonBlocking {
                wait_for_disconnect: true,
            }),
{
    let mut has_blocking = false;
    let mut has_nonblocking = false;
    let mut has_wait = false;
    let mut i: usize = 0;
    while i < local_kinds.len()
        invariant
            i <= local_kinds@.len(),
            has_blocking == exists|j: int|
                0 <= j < i && local_kinds@[j] == InspectorSessionKind::Blocking,
            has_nonblocking == exists|j: int| 0 <= j < i && local_kinds@[j] is NonBlocking,
            has_wait == exists|j: int|
                0 <= j < i && local_kinds@[j] == (InspectorSessionKind::NonBlocking {
                    wait_for_disconnect: true,
                }),
        decreases local_kinds@.len() - i,
    {
        match local_kinds[i] {
            InspectorSessionKind::Blocking => {
                has_blocking = true;
            },
            InspectorSessionKind::NonBlocking { wait_for_disconnect } => {
                has_nonblocking = true;
                if wait_for_disconnect {
                    has_wait = true;
                }
            },
        }
        i = i + 1;
    }
    SessionsState {
        has_active: established > 0 || handshake || local_kinds.len() > 0,
        has_blocking,
        has_nonblocking,
        has_nonblocking_wait_for_disconnect: has_wait,
    }
}

/// Where the polling of the inspector's sessions stands.
#[derive(Clone, Copy, Debug, PartialEq, Eq, Structural)]
pub enum PollState {
    Idle,
    Woken,
    Polling,
    Parked,
    Dropped,
}

/// What the poller does once the sessions have no more to do for now.
#[derive(Clone, Copy, Debug, PartialEq, Eq, Structural)]
pub enum PollStep {
    /// Poll the sessions once more.
    PollAgain,
    /// Register the task's waker and return to the task.
    Yield,
    /// Park the thread until a wake-up comes.
    Park,
}

/// What a wake-up does besides marking the poller woken.
#[derive(Clone, Copy, Debug, PartialEq, Eq, Structural)]
pub enum WakeAction {
    /// Wake the task that polled last and ask the isolate for an interrupt.
    WakeTaskAndInterrupt,
    /// Unpark the parked thread.
    Unpark,
    Nothing,
}

/// Polling starts: only an idle or woken poller can start.
pub fn poll_begin(state: PollState) -> (r: PollState)
    requires
        state == PollState::Idle || state == PollState::Woken,
    ensures
        r == PollState::Polling,
{
    PollState::Polling
}

/// Where a poller that ran out of work goes: one woken meanwhile polls
/// again; else it yields to its task, or parks when execution is paused.
pub open spec fn after_poll(state: PollState, should_block: bool) -> (PollState, PollStep) {
    if state == PollState::Woken {
        (PollState::Polling, PollStep::PollAgain)
    } else if should_block {
        (PollState::Parked, PollStep::Park)
    } else {
        (PollState::Idle, PollStep::Yield)
    }
}

/// What a wake-up does: whatever the state, the poller is woken after it;
/// an idle poller's task is woken and an interrupt requested, a parked
/// thread is unparked.
pub open spec fn woken(state: PollState) -> (PollState, WakeAction) {
    (PollState::Woken, match state {
        PollState::Idle => WakeAction::WakeTaskAndInterrupt,
        PollState::Parked => WakeAction::Unpark,
        _ => WakeAction::Nothing,
    })
}

/// Polling ran out of work (see [`after_poll`]); only a woken or polling
/// poller can.
pub fn poll_end(state: PollState, should_block: bool) -> (r: (PollState, PollStep))
    requires
        state == PollState::Woken || state == PollState::Polling,
    ensures
        r == after_poll(state, should_block),
{
    match state {
        PollState::Woken => (PollState::Polling, PollStep::PollAgain),
        _ => {
            if should_block {
                (PollState::Parked, PollStep::Park)
            } else {
                (PollState::Idle, PollStep::Yield)
            }
        },
    }
}

/// A wake-up (see [`woken`]).
pub fn wake(state: PollState) -> (r: (PollState, WakeAction))
    ensures
        r == woken(state),
{
    let action = match state {
        PollState::Idle => WakeAction::WakeTaskAndInterrupt,
        PollState::Parked => WakeAction::Unpark,
        _ => WakeAction::Nothing,
    };
    (PollState::Woken, action)
}

/// The sessions registered with the inspector: each gets the next local id,
/// and the first becomes the main session, which receives target events.
pub struct SessionRegistry {
    next_local_id: i32,
    local_ids: Vec<i32>,
    main_session_id: Option<i32>,
}

impl SessionRegistry {
    pub closed spec fn spec_next_local_id(&self) -> int {
        self.next_local_id as int
    }

    pub closed spec fn spec_local_ids(&self) -> Seq<i32> {
        self.local_ids@
    }

    pub closed spec fn spec_main_session_id(&self) -> Option<i32> {
        self.main_session_id
    }

    /// Ids are handed out in increasing order, below the next one, and the
    /// main session is the first registered.
    pub closed spec fn wf(&self) -> bool {
        &&& forall|i: int, j: int|
            0 <= i < j < self.local_ids@.len() ==> self.local_ids@[i] < self.local_ids@[j]
        &&& forall|i: int|
            0 <= i < self.local_ids@.len() ==> 1 <= #[trigger] self.local_ids@[i] < self.next_local_id
        &&& 1 <= self.next_local_id
        &&& match self.main_session_id {
            Some(m) => self.local_ids@.len() > 0 && m == self.local_ids@[0],
            None => self.local_ids@.len() == 0,
        }
    }

    /// No session yet; ids start at 1.
    pub fn new() -> (r: Self)
        ensures
            r.wf(),
            r.spec_next_local_id() == 1,
            r.spec_local_ids() == Seq::<i32>::empty(),
            r.spec_main_session_id() is None,
    {
        SessionRegistry { next_local_id: 1, local_ids: Vec::new(), main_session_id: None }
    }

    /// Registers a session that finished its handshake; returns its id.
    pub fn register(&mut self) -> (id: i32)
        requires
            old(self).wf(),
            old(self).spec_next_local_id() < i32::MAX,
        ensures
            final(self).wf(),
            id == old(self).spec_next_local_id(),
            final(self).spec_next_local_id() == id + 1,
            final(self).spec_local_ids() == old(self).spec_local_ids().push(id),
            final(self).spec_main_session_id() == match old(self).spec_main_session_id() {
                Some(m) => Some(m),
                None => Some(id),
            },
    {
        let id = self.next_local_id;
        self.next_local_id = self.next_local_id + 1;
        self.local_ids.push(id);
        if self.main_session_id.is_none() {
            self.main_session_id = Some(id);
        }
        id
    }

    /// The main session, if one was registered.
    pub fn main_session_id(&self) -> (r: Option<i32>)
        ensures
            r == self.spec_main_session_id(),
    {
        self.main_session_id
    }
}

/// The parameters of a protocol message that the routing reads.
#[derive(Debug)]
pub struct CdpParams {
    pub wait_for_debugger_on_start: Option<bool>,
    pub message: Option<String>,
    pub session_id: Option<String>,
    pub discover: Option<bool>,
    pub auto_attach: Option<bool>,
    pub target_id: Option<String>,
    pub flatten: Option<bool>,
}

/// The fields of a protocol message from a frontend that the routing reads.
#[derive(Debug)]
pub struct CdpMessage {
    /// The top-level `sessionId`, which addresses a worker session.
    pub session_id: Option<String>,
    pub method: Option<String>,
    pub id: Option<i64>,
    pub params: CdpParams,
}

/// A worker that a frontend can attach to.
#[derive(Debug)]
pub struct TargetInfo {
    pub target_id: String,
    pub session_id: String,
    pub local_session_id: i32,
    pub url: String,
}

/// The result that a response to a request carries.
#[derive(Clone, Copy, Debug, PartialEq, Eq, Structural)]
pub enum CdpResult {
    /// `{}`.
    Empty,
    /// `{"sessionId": ...}` of the target at this index.
    TargetSession(usize),
}

/// A message to send to the frontend. Targets are named by their index.
#[derive(Clone, Copy, Debug, PartialEq, Eq, Structural)]
pub enum Outgoing {
    /// `{"id": ..., "result": ...}`.
    Response { id: i32, result: CdpResult },
    /// `NodeWorker.attachedToWorker` for the target, not waiting for a
    /// debugger.
    AttachedToWorker { target: usize },
    /// `Target.attachedToTarget` for the target.
    AttachedToTarget { target: usize, attached: bool, waiting_for_debugger: bool },
}

/// The text of an optional string, empty when there is none.
pub open spec fn text_or_empty(o: Option<String>) -> Seq<char> {
    match o {
        Some(s) => s@,
        None => Seq::empty(),
    }
}

/// The response to a request, if the message has an id: the id is cut to
/// 32 bits.
pub open spec fn response_for(id: Option<i64>, result: CdpResult) -> Seq<Outgoing> {
    match id {
        Some(i) => seq![Outgoing::Response { id: i as i32, result }],
        None => Seq::empty(),
    }
}

/// `NodeWorker.attachedToWorker` for each of the first `n` targets.
pub open spec fn worker_notes(n: nat) -> Seq<Outgoing>
    decreases n,
{
    if n == 0 {
        Seq::empty()
    } else {
        worker_notes((n - 1) as nat).push(Outgoing::AttachedToWorker { target: (n - 1) as usize })
    }
}

/// `Target.attachedToTarget`, waiting for a debugger, for each of the first
/// `n` targets that is not attached.
pub open spec fn attach_notes(attached: Seq<bool>, n: nat) -> Seq<Outgoing>
    decreases n,
{
    if n == 0 {
        Seq::empty()
    } else if attached[n - 1] {
        attach_notes(attached, (n - 1) as nat)
    } else {
        attach_notes(attached, (n - 1) as nat).push(
            Outgoing::AttachedToTarget {
                target: (n - 1) as usize,
                attached: false,
                waiting_for_debugger: true,
            },
        )
    }
}

/// The first target from `i` on whose target id is `tid`.
pub open spec fn first_target_from(ts: Seq<TargetInfo>, tid: Seq<char>, i: int) -> Option<int>
    decreases ts.len() - i,
{
    if i < 0 || i >= ts.len() {
        None
    } else if ts[i].target_id@ == tid {
        Some(i)
    } else {
        first_target_from(ts, tid, i + 1)
    }
}

/// Where a message from the frontend goes.
#[derive(Clone, Copy, Debug, PartialEq, Eq, Structural)]
pub enum RouteKind {
    /// It addresses a worker session; it is not processed here.
    Worker,
    /// A `NodeWorker.` method, answered here.
    NodeWorker,
    /// A `Target.` method, answered here.
    Target,
    /// `Debugger.setBreakpointByUrl`: stored for workers, and dispatched.
    Breakpoint,
    /// Anything else, and text that is no JSON: dispatched to V8.
    V8,
}

/// Where the message `m` goes.
pub open spec fn route_kind(m: Option<CdpMessage>) -> RouteKind {
    match m {
        None => RouteKind::V8,
        Some(m) => {
            if m.session_id matches Some(s) && s@.len() > 0 {
                RouteKind::Worker
            } else {
                match m.method {
                    None => RouteKind::V8,
                    Some(meth) => {
                        if starts_with(meth@, "NodeWorker."@) {
                            RouteKind::NodeWorker
                        } else if starts_with(meth@, "Target."@) {
                            RouteKind::Target
                        } else if meth@ == "Debugger.setBreakpointByUrl"@ {
                            RouteKind::Breakpoint
                        } else {
                            RouteKind::V8
                        }
                    },
                }
            }
        },
    }
}

/// Routes the messages of a frontend's session: the workers that can be
/// attached to, whether auto-attach is on, and the breakpoint commands kept
/// to replay to workers.
pub struct InspectorRouter {
    targets: Vec<TargetInfo>,
    attached: Vec<bool>,
    auto_attach_enabled: bool,
    stored_breakpoints: Vec<String>,
}

impl InspectorRouter {
    pub closed spec fn spec_targets(&self) -> Seq<TargetInfo> {
        self.targets@
    }

    /// Which targets a frontend is attached to.
    pub closed spec fn spec_attached(&self) -> Seq<bool> {
        self.attached@
    }

    pub closed spec fn spec_auto_attach(&self) -> bool {
        self.auto_attach_enabled
    }

    pub closed spec fn spec_breakpoints(&self) -> Seq<Seq<char>> {
        self.stored_breakpoints@.map_values(|s: String| s@)
    }

    /// Each target has its attached flag.
    pub closed spec fn wf(&self) -> bool {
        self.targets@.len() == self.attached@.len()
    }

    /// A router with no targets, auto-attach off and no breakpoints.
    pub fn new() -> (r: Self)
        ensures
            r.wf(),
            r.spec_targets().len() == 0,
            !r.spec_auto_attach(),
            r.spec_breakpoints().len() == 0,
    {
        InspectorRouter {
            targets: Vec::new(),
            attached: Vec::new(),
            auto_attach_enabled: false,
            stored_breakpoints: Vec::new(),
        }
    }

    /// Adds a worker that a frontend can attach to; it starts unattached.
    pub fn register_target(&mut self, info: TargetInfo)
        requires
            old(self).wf(),
        ensures
            final(self).wf(),
            final(self).spec_targets() == old(self).spec_targets().push(info),
            final(self).spec_attached() == old(self).spec_attached().push(false),
            final(self).spec_auto_attach() == old(self).spec_auto_attach(),
            final(self).spec_breakpoints() == old(self).spec_breakpoints(),
    {
        self.targets.push(info);
        self.attached.push(false);
    }

    /// The target at `i`.
    pub fn target(&self, i: usize) -> (r: &TargetInfo)
        requires
            i < self.spec_targets().len(),
        ensures
            *r == self.spec_targets()[i as int],
    {
        &self.targets[i]
    }

    /// Whether a frontend is attached to the target at `i`.
    pub fn is_attached(&self, i: usize) -> (r: bool)
        requires
            self.wf(),
            i < self.spec_targets().len(),
        ensures
            r == self.spec_attached()[i as int],
    {
        self.attached[i]
    }

    /// Whether auto-attach is on.
    pub fn auto_attach_enabled(&self) -> (r: bool)
        ensures
            r == self.spec_auto_attach(),
    {
        self.auto_attach_enabled
    }

    /// The breakpoint commands kept to replay to workers.
    pub fn stored_breakpoints(&self) -> (r: &Vec<String>)
        ensures
            r@.map_values(|s: String| s@) == self.spec_breakpoints(),
    {
        &self.stored_breakpoints
    }

    /// Attaches every target that is not attached yet, announcing each.
    fn attach_unattached(&mut self) -> (out: Vec<Outgoing>)
        requires
            old(self).wf(),
        ensures
            final(self).wf(),
            final(self).spec_targets() == old(self).spec_targets(),
            final(self).spec_attached() == Seq::new(old(self).spec_attached().len(), |i: int| true),
            final(self).spec_auto_attach() == old(self).spec_auto_attach(),
            final(self).spec_breakpoints() == old(self).spec_breakpoints(),
            out@ == attach_notes(old(self).spec_attached(), old(self).spec_attached().len()),
    {
        let ghost orig = self.attached@;
        let mut out: Vec<Outgoing> = Vec::new();
        let mut i: usize = 0;
        while i < self.attached.len()
            invariant
                self.wf(),
                self.targets@ == old(self).targets@,
                self.auto_attach_enabled == old(self).auto_attach_enabled,
                self.stored_breakpoints@ == old(self).stored_breakpoints@,
                self.attached@.len() == orig.len(),
                i <= orig.len(),
                forall|j: int| 0 <= j < i ==> self.attached@[j],
                forall|j: int| i <= j < orig.len() ==> self.attached@[j] == orig[j],
                out@ == attach_notes(orig, i as nat),
            decreases orig.len() - i,
        {
            if !self.attached[i] {
                self.attached.set(i, true);
                out.push(
                    Outgoing::AttachedToTarget {
                        target: i,
                        attached: false,
                        waiting_for_debugger: true,
                    },
                );
            }
            i = i + 1;
        }
        assert(self.attached@ =~= Seq::new(orig.len(), |i: int| true));
        out
    }

    /// `NodeWorker.attachedToWorker` for every target.
    fn announce_workers(&self) -> (out: Vec<Outgoing>)
        ensures
            out@ == worker_notes(self.spec_targets().len()),
    {
        let mut out: Vec<Outgoing> = Vec::new();
        let mut i: usize = 0;
        while i < self.targets.len()
            invariant
                i <= self.targets@.len(),
                out@ == worker_notes(i as nat),
            decreases self.targets@.len() - i,
        {
            out.push(Outgoing::AttachedToWorker { target: i });
            i = i + 1;
        }
        out
    }

    /// The first target whose target id is `tid`.
    fn find_target(&self, tid: &str) -> (r: Option<usize>)
        ensures
            match r {
                Some(i) => first_target_from(self.spec_targets(), tid@, 0) == Some(i as int),
                None => first_target_from(self.spec_targets(), tid@, 0) is None,
            },
    {
        let mut i: usize = 0;
        while i < self.targets.len()
            invariant
                i <= self.targets@.len(),
                first_target_from(self.targets@, tid@, 0) == first_target_from(
                    self.targets@,
                    tid@,
                    i as int,
                ),
            decreases self.targets@.len() - i,
        {
            if str_eq(self.targets[i].target_id.as_str(), tid) {
                return Some(i);
            }
            i = i + 1;
        }
        None
    }
}

/// What a `Target.` message does: the attached flags and auto-attach
/// setting after it, and what is sent back, the response first.
pub open spec fn target_outcome(
    targets: Seq<TargetInfo>,
    attached: Seq<bool>,
    auto: bool,
    meth: Seq<char>,
    m: CdpMessage,
) -> (Seq<bool>, bool, Seq<Outgoing>) {
    let all = Seq::new(attached.len(), |i: int| true);
    let empty = response_for(m.id, CdpResult::Empty);
    if meth == "Target.setDiscoverTargets"@ {
        if m.params.discover == Some(true) {
            (all, auto, empty + attach_notes(attached, attached.len()))
        } else {
            (attached, auto, empty)
        }
    } else if meth == "Target.setAutoAttach"@ {
        if m.params.auto_attach == Some(true) {
            (all, true, empty + attach_notes(attached, attached.len()))
        } else {
            (attached, false, empty)
        }
    } else if meth == "Target.attachToTarget"@ {
        match first_target_from(targets, text_or_empty(m.params.target_id), 0) {
            Some(i) => (
                attached.update(i, true),
                auto,
                response_for(m.id, CdpResult::TargetSession(i as usize)) + seq![
                    Outgoing::AttachedToTarget {
                        target: i as usize,
                        attached: true,
                        waiting_for_debugger: false,
                    },
                ],
            ),
            None => (attached, auto, empty),
        }
    } else {
        (attached, auto, empty)
    }
}

/// What a `NodeWorker.` message sends back: the response, then, for
/// `NodeWorker.enable`, the announcement of every worker.
pub open spec fn node_worker_outcome(n_targets: nat, meth: Seq<char>, m: CdpMessage) -> Seq<Outgoing> {
    response_for(m.id, CdpResult::Empty) + if meth == "NodeWorker.enable"@ {
        worker_notes(n_targets)
    } else {
        Seq::empty()
    }
}

impl InspectorRouter {
    /// The response to a request, if the message has an id.
    fn respond(id: Option<i64>, result: CdpResult) -> (out: Vec<Outgoing>)
        ensures
            out@ == response_for(id, result),
    {
        let mut out: Vec<Outgoing> = Vec::new();
        if let Some(i) = id {
            out.push(Outgoing::Response { id: i as i32, result });
        }
        proof {
            if id is Some {
                assert(out@ =~= response_for(id, result));
            }
        }
        out
    }

    /// Handles a `Target.` message.
    fn handle_target(&mut self, meth: &str, m: &CdpMessage) -> (out: Vec<Outgoing>)
        requires
            old(self).wf(),
        ensures
            final(self).wf(),
            final(self).spec_targets() == old(self).spec_targets(),
            final(self).spec_breakpoints() == old(self).spec_breakpoints(),
            (final(self).spec_attached(), final(self).spec_auto_attach(), out@) == target_outcome(
                old(self).spec_targets(),
                old(self).spec_attached(),
                old(self).spec_auto_attach(),
                meth@,
                *m,
            ),
    {
        let mut out = Self::respond(m.id, CdpResult::Empty);
        if str_eq(meth, "Target.setDiscoverTargets") {
            if m.params.discover == Some(true) {
                let mut notes = self.attach_unattached();
                out.append(&mut notes);
            }
        } else if str_eq(meth, "Target.setAutoAttach") {
            let auto_attach = m.params.auto_attach == Some(true);
            self.auto_attach_enabled = auto_attach;
            if auto_attach {
                let mut notes = self.attach_unattached();
                out.append(&mut notes);
            }
        } else if str_eq(meth, "Target.attachToTarget") {
            let tid = match &m.params.target_id {
                Some(t) => t.as_str(),
                None => "",
            };
            proof {
                if m.params.target_id is None {
                    reveal_strlit("");
                }
            }
            assert(tid@ == text_or_empty(m.params.target_id));
            if let Some(i) = self.find_target(tid) {
                proof {
                    lemma_first_target_from_bounds(self.targets@, tid@, 0);
                }
                self.attached.set(i, true);
                out = Self::respond(m.id, CdpResult::TargetSession(i));
                out.push(
                    Outgoing::AttachedToTarget { target: i, attached: true, waiting_for_debugger: false },
                );
            }
        }
        out
    }

    /// Routes a message from the frontend: `raw` is its text and `parsed`
    /// its fields, `None` where it is no JSON. Returns whether the message
    /// goes on to V8, and what is sent back to the frontend, in order.
    pub fn route_session_message(&mut self, raw: &str, parsed: Option<&CdpMessage>) -> (r: (
        bool,
        Vec<Outgoing>,
    ))
        requires
            old(self).wf(),
        ensures
            final(self).wf(),
            final(self).spec_targets() == old(self).spec_targets(),
            ({
                let pm = match parsed {
                    Some(x) => Some(*x),
                    None => None,
                };
                let new_attached = final(self).spec_attached();
                let new_auto = final(self).spec_auto_attach();
                let new_bp = final(self).spec_breakpoints();
                let old_attached = old(self).spec_attached();
                let old_auto = old(self).spec_auto_attach();
                let old_bp = old(self).spec_breakpoints();
                let unchanged = new_attached == old_attached && new_auto == old_auto && new_bp
                    == old_bp;
                match route_kind(pm) {
                    RouteKind::Worker => !r.0 && r.1@.len() == 0 && unchanged,
                    RouteKind::V8 => r.0 && r.1@.len() == 0 && unchanged,
                    RouteKind::Breakpoint => r.0 && r.1@.len() == 0 && new_attached == old_attached
                        && new_auto == old_auto && new_bp == old_bp.push(raw@),
                    RouteKind::NodeWorker => !r.0 && unchanged && r.1@ == node_worker_outcome(
                        old(self).spec_targets().len(),
                        text_or_empty(pm->0.method),
                        pm->0,
                    ),
                    RouteKind::Target => !r.0 && new_bp == old_bp && (new_attached, new_auto, r.1@)
                        == target_outcome(
                        old(self).spec_targets(),
                        old_attached,
                        old_auto,
                        text_or_empty(pm->0.method),
                        pm->0,
                    ),
                }
            }),
    {
        let kind = classify_message(parsed);
        match kind {
            RouteKind::Worker => (false, Vec::new()),
            RouteKind::V8 => (true, Vec::new()),
            RouteKind::Breakpoint => {
                self.stored_breakpoints.push(raw.to_owned());
                proof {
                    assert(self.stored_breakpoints@.map_values(|s: String| s@) =~= old(
                        self,
                    ).stored_breakpoints@.map_values(|s: String| s@).push(raw@));
                }
                (true, Vec::new())
            },
            RouteKind::NodeWorker => {
                let m = parsed.unwrap();
                let meth = match &m.method {
                    Some(meth) => meth.as_str(),
                    None => "",
                };
                let mut out = Self::respond(m.id, CdpResult::Empty);
                if str_eq(meth, "NodeWorker.enable") {
                    let mut notes = self.announce_workers();
                    out.append(&mut notes);
                } else {
                    assert(out@ =~= out@ + Seq::<Outgoing>::empty());
                }
                (false, out)
            },
            RouteKind::Target => {
                let m = parsed.unwrap();
                let meth = match &m.method {
                    Some(meth) => meth.as_str(),
                    None => "",
                };
                let out = self.handle_target(meth, m);
                (false, out)
            },
        }
    }
}

/// The first target found lies among the targets.
proof fn lemma_first_target_from_bounds(ts: Seq<TargetInfo>, tid: Seq<char>, i: int)
    ensures
        first_target_from(ts, tid, i) matches Some(j) ==> i <= j < ts.len(),
    decreases ts.len() - i,
{
    if 0 <= i < ts.len() && ts[i].target_id@ != tid {
        lemma_first_target_from_bounds(ts, tid, i + 1);
    }
}

/// Where the message `m` goes (see [`route_kind`]).
pub fn classify_message(m: Option<&CdpMessage>) -> (r: RouteKind)
    ensures
        r == route_kind(
            match m {
                Some(x) => Some(*x),
                None => None,
            },
        ),
{
    match m {
        None => RouteKind::V8,
        Some(m) => {
            if let Some(s) = &m.session_id {
                if !s.as_str().is_empty() {
                    return RouteKind::Worker;
                }
            }
            match &m.method {
                None => RouteKind::V8,
                Some(meth) => {
                    let b = meth.as_str().as_bytes();
                    if bytes_starts_with(b, "NodeWorker.".as_bytes()) {
                        RouteKind::NodeWorker
                    } else if bytes_starts_with(b, "Target.".as_bytes()) {
                        RouteKind::Target
                    } else if str_eq(meth.as_str(), "Debugger.setBreakpointByUrl") {
                        RouteKind::Breakpoint
                    } else {
                        RouteKind::V8
                    }
                },
            }
        },
    }
}

} // verus!
