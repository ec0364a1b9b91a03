//! The operating mode of the bridge, and the `/mode` endpoint that changes it.
use vstd::prelude::*;

use crate::audio;
use crate::audio::{AudioEngine, Task};
use crate::http;
use crate::http::{CommandResult, HttpReply, ReplyView};
use crate::modhost;
use crate::modhost::{Error, ModHostClient};
use crate::text;

verus! {

/// Operating mode of the bridge.
#[derive(Debug, Clone, Copy, PartialEq, Eq, Structural)]
pub enum Mode {
    /// Full stack: audio + MOD UI + SSH + WiFi + avahi + cron.
    Studio,
    /// Minimal audio-only runtime: non-audio services stopped via systemd isolate.
    Gig,
}

impl Default for Mode {
    fn default() -> (r: Mode)
        ensures
            r == Mode::Studio,
    {
        Mode::Studio
    }
}

/// The name of a mode.
pub open spec fn mode_name(mode: Mode) -> Seq<char> {
    match mode {
        Mode::Studio => "studio"@,
        Mode::Gig => "gig"@,
    }
}

impl Mode {
    /// The name of the mode.
    pub fn as_str(self) -> (r: &'static str)
        ensures
            r@ == mode_name(self),
    {
        match self {
            Mode::Studio => "studio",
            Mode::Gig => "gig",
        }
    }
}

/// The two modes have different names.
pub proof fn law_mode_names_differ(a: Mode, b: Mode)
    ensures
        mode_name(a) == mode_name(b) <==> a == b,
{
    reveal_strlit("studio");
    reveal_strlit("gig");
    assert("studio"@.len() == 6);
    assert("gig"@.len() == 3);
}

/// Shared bridge state.
#[derive(Debug)]
pub struct BridgeState {
    /// The connection to mod-host.
    pub modhost: ModHostClient,
    /// The audio engine, where a rig is configured.
    pub audio_engine: Option<AudioEngine>,
    /// The operating mode.
    pub mode: Mode,
    /// MOD UI controls mod-host; the bridge keeps away from it.
    pub design_mode: bool,
    /// Where mod-host listens.
    pub modhost_addr: String,
    /// There is a way to send SysEx to the firmware.
    pub midi_out: bool,
    /// There is a way to hear the firmware's replies.
    pub sysex_in: bool,
}

/// The query of a request to `/mode`.
#[derive(Debug)]
pub struct ModeQuery {
    pub set: Option<String>,
}

/// What a request to `/mode` takes next.
#[derive(Debug)]
pub enum ModeStep {
    /// The answer.
    Reply(HttpReply),
    /// Isolate this systemd target, and report to [`BridgeState::dev_isolated`].
    IsolateDev { target: String },
    /// Isolate this systemd target, and report to [`BridgeState::gig_isolated`].
    IsolateGig { target: String },
    /// Wait, connect to mod-host, and report to [`BridgeState::reconnected`].
    Reconnect { pause_millis: u64, addr: String },
    /// Switch to the first snapshot, where there is an engine, then answer. There is nothing to
    /// send where the rig counts as loaded and that snapshot is active. A switch that fails
    /// changes nothing of the answer.
    Restore { task: Option<Task>, reply: HttpReply },
}

/// The model of a [`ModeStep`].
pub enum ModeStepView {
    Reply(ReplyView),
    IsolateDev { target: Seq<char> },
    IsolateGig { target: Seq<char> },
    Reconnect { pause_millis: u64, addr: Seq<char> },
    Restore { task: Option<audio::TaskView>, reply: ReplyView },
}

/// The model of a task that may be missing.
pub open spec fn task_view(task: Option<Task>) -> Option<audio::TaskView> {
    match task {
        Some(t) => Some(t@),
        None => None,
    }
}

impl DeepView for ModeStep {
    type V = ModeStepView;

    open spec fn deep_view(&self) -> ModeStepView {
        match self {
            ModeStep::Reply(reply) => ModeStepView::Reply(reply.deep_view()),
            ModeStep::IsolateDev { target } => ModeStepView::IsolateDev { target: target@ },
            ModeStep::IsolateGig { target } => ModeStepView::IsolateGig { target: target@ },
            ModeStep::Reconnect { pause_millis, addr } => ModeStepView::Reconnect {
                pause_millis: *pause_millis,
                addr: addr@,
            },
            ModeStep::Restore { task, reply } => ModeStepView::Restore {
                task: task_view(*task),
                reply: reply.deep_view(),
            },
        }
    }
}

/// The answer to a request that names no mode.
pub open spec fn usage() -> ReplyView {
    ReplyView { status: http::BAD_REQUEST, body: "use ?set=studio or ?set=gig\n"@ }
}

/// The first step of a request.
pub open spec fn first_step(bridge: BridgeState, is_get: bool, set: Option<Seq<char>>) -> ModeStepView {
    if is_get {
        ModeStepView::Reply(ReplyView { status: http::OK, body: mode_name(bridge.mode) + "\n"@ })
    } else {
        match set {
            None => ModeStepView::Reply(usage()),
            Some(name) => if name == mode_name(Mode::Studio) {
                if bridge.mode == Mode::Gig {
                    ModeStepView::IsolateDev { target: "pedalboard-dev.target"@ }
                } else {
                    ModeStepView::Reconnect { pause_millis: 0, addr: bridge.modhost_addr@ }
                }
            } else if name == mode_name(Mode::Gig) {
                ModeStepView::IsolateGig { target: "pedalboard-gig.target"@ }
            } else {
                ModeStepView::Reply(usage())
            },
        }
    }
}

/// The answer when systemd did not isolate the target.
pub open spec fn isolation_failure(result: CommandResult) -> Option<ReplyView> {
    match result {
        CommandResult::Succeeded => None,
        CommandResult::Failed(status) => Some(
            ReplyView {
                status: http::INTERNAL_SERVER_ERROR,
                body: "systemctl isolate failed with exit code: "@ + status@ + "\n"@,
            },
        ),
        CommandResult::NotRun(cause) => Some(
            ReplyView {
                status: http::INTERNAL_SERVER_ERROR,
                body: "failed to execute systemctl: "@ + cause@ + "\n"@,
            },
        ),
    }
}

fn isolation_reply(result: CommandResult) -> (r: Option<HttpReply>)
    ensures
        r.deep_view() == isolation_failure(result),
{
    match result {
        CommandResult::Succeeded => None,
        CommandResult::Failed(status) => Some(
            HttpReply {
                status: http::INTERNAL_SERVER_ERROR,
                body: "systemctl isolate failed with exit code: ".to_owned().concat(
                    status.as_str(),
                ).concat("\n"),
            },
        ),
        CommandResult::NotRun(cause) => Some(
            HttpReply {
                status: http::INTERNAL_SERVER_ERROR,
                body: "failed to execute systemctl: ".to_owned().concat(cause.as_str()).concat(
                    "\n",
                ),
            },
        ),
    }
}

/// The answer once the mode is studio.
pub open spec fn studio_reply() -> ReplyView {
    ReplyView { status: http::OK, body: "studio\n"@ }
}

/// The answer once the mode is gig.
pub open spec fn gig_reply() -> ReplyView {
    ReplyView { status: http::OK, body: "gig\n"@ }
}

/// The answer when mod-host could not be reached.
pub open spec fn reconnect_failure(e: modhost::ErrorView) -> ReplyView {
    ReplyView {
        status: http::SERVICE_UNAVAILABLE,
        body: "mod-host reconnect failed: "@ + modhost::error_text(e) + "\n"@,
    }
}

/// The plan of the switch to the first snapshot, where there is an engine.
pub open spec fn restore_plan(engine: Option<AudioEngine>) -> Option<audio::TaskView> {
    match engine {
        Some(e) => Some(audio::TaskView { steps: audio::index_plan(e@, 0), done: 0 }),
        None => None,
    }
}

/// A reconnect does not load the rig again: where it counts as loaded and the first snapshot is
/// active, there is nothing to do to restore it.
pub proof fn law_restore_of_the_active_snapshot(engine: AudioEngine)
    requires
        engine@.rig_loaded,
        engine@.config.snapshots.len() > 0,
        engine@.active == Some(engine@.config.snapshots[0].name),
    ensures
        restore_plan(Some(engine)) == Some(
            audio::TaskView { steps: Seq::<audio::StepView>::empty(), done: 0 },
        ),
{
    audio::law_needless_switch(engine@, engine@.config.snapshots[0].name);
}

impl BridgeState {
    /// The switch to the first snapshot, where there is an engine. It has no steps where the rig
    /// counts as loaded and that snapshot is active already.
    pub fn restore(&self) -> (r: Option<Task>)
        ensures
            task_view(r) == restore_plan(self.audio_engine),
    {
        match &self.audio_engine {
            Some(engine) => Some(engine.switch_snapshot_by_index(0)),
            None => None,
        }
    }

    /// Starts a request to `/mode`.
    ///
    /// - GET: returns the current mode ("studio" or "gig").
    /// - POST ?set=studio: restores pedalboard-dev.target if coming from gig, reconnects mod-host.
    /// - POST ?set=gig: isolates to pedalboard-gig.target (minimal runtime, audio only).
    pub fn handle_mode(&self, is_get: bool, query: &ModeQuery) -> (r: ModeStep)
        ensures
            r.deep_view() == first_step(*self, is_get, query.set.deep_view()),
    {
        if is_get {
            return ModeStep::Reply(
                HttpReply {
                    status: http::OK,
                    body: self.mode.as_str().to_owned().concat("\n"),
                },
            );
        }
        let named = match &query.set {
            Some(name) => name.as_str(),
            None => {
                return ModeStep::Reply(
                    HttpReply {
                        status: http::BAD_REQUEST,
                        body: "use ?set=studio or ?set=gig\n".to_owned(),
                    },
                );
            },
        };
        if text::same(named, "studio") {
            if self.mode == Mode::Gig {
                ModeStep::IsolateDev { target: "pedalboard-dev.target".to_owned() }
            } else {
                ModeStep::Reconnect { pause_millis: 0, addr: self.modhost_addr.clone() }
            }
        } else if text::same(named, "gig") {
            ModeStep::IsolateGig { target: "pedalboard-gig.target".to_owned() }
        } else {
            ModeStep::Reply(
                HttpReply {
                    status: http::BAD_REQUEST,
                    body: "use ?set=studio or ?set=gig\n".to_owned(),
                },
            )
        }
    }

    /// Takes up how the isolation of the development target ended. The services get a second to
    /// come up before mod-host is tried.
    pub fn dev_isolated(&self, result: CommandResult) -> (r: ModeStep)
        ensures
            r.deep_view() == match isolation_failure(result) {
                Some(reply) => ModeStepView::Reply(reply),
                None => ModeStepView::Reconnect {
                    pause_millis: 1000,
                    addr: self.modhost_addr@,
                },
            },
            r matches ModeStep::Reply(reply) ==> forall|
                set: Option<Seq<char>>,
                refused: Option<modhost::ErrorView>,
            |
                first_step(*self, false, set) is IsolateDev ==> #[trigger] mode_request(
                    *self,
                    set,
                    result,
                    refused,
                ) == (self.mode, reply.deep_view()),
    {
        match isolation_reply(result) {
            Some(reply) => ModeStep::Reply(reply),
            None => ModeStep::Reconnect { pause_millis: 1000, addr: self.modhost_addr.clone() },
        }
    }

    /// Takes up how the connection to mod-host went. Only a connection makes the mode studio.
    pub fn reconnected(&mut self, tried: Result<ModHostClient, Error>) -> (r: ModeStep)
        ensures
            match tried {
                Ok(client) => {
                    &&& *final(self) == (BridgeState {
                        modhost: client,
                        mode: Mode::Studio,
                        ..*old(self)
                    })
                    &&& r.deep_view() == (ModeStepView::Restore {
                        task: restore_plan(old(self).audio_engine),
                        reply: studio_reply(),
                    })
                },
                Err(e) => {
                    &&& *final(self) == *old(self)
                    &&& r.deep_view() == ModeStepView::Reply(reconnect_failure(e.deep_view()))
                },
            },
            forall|set: Option<Seq<char>>, isolation: CommandResult|
                first_step(*old(self), false, set) is Reconnect || first_step(
                    *old(self),
                    false,
                    set,
                ) is IsolateDev && isolation_failure(isolation) is None
                    ==> #[trigger] mode_request(
                    *old(self),
                    set,
                    isolation,
                    refused_by(tried),
                ) == (
                    final(self).mode,
                    match r.deep_view() {
                        ModeStepView::Restore { reply, .. } => reply,
                        ModeStepView::Reply(reply) => reply,
                        _ => arbitrary(),
                    },
                ),
    {
        match tried {
            Ok(client) => {
                self.modhost = client;
                self.mode = Mode::Studio;
                ModeStep::Restore {
                    task: self.restore(),
                    reply: HttpReply { status: http::OK, body: "studio\n".to_owned() },
                }
            },
            Err(e) => ModeStep::Reply(
                HttpReply {
                    status: http::SERVICE_UNAVAILABLE,
                    body: "mod-host reconnect failed: ".to_owned().concat(
                        e.describe().as_str(),
                    ).concat("\n"),
                },
            ),
        }
    }

    /// Takes up how the isolation of the gig target ended. Only a success makes the mode gig.
    pub fn gig_isolated(&mut self, result: CommandResult) -> (r: HttpReply)
        ensures
            match isolation_failure(result) {
                Some(reply) => *final(self) == *old(self) && r.deep_view() == reply,
                None => {
                    &&& *final(self) == (BridgeState { mode: Mode::Gig, ..*old(self) })
                    &&& r.deep_view() == gig_reply()
                },
            },
            forall|set: Option<Seq<char>>, refused: Option<modhost::ErrorView>|
                first_step(*old(self), false, set) is IsolateGig ==> #[trigger] mode_request(
                    *old(self),
                    set,
                    result,
                    refused,
                ) == (final(self).mode, r.deep_view()),
    {
        match isolation_reply(result) {
            Some(reply) => reply,
            None => {
                self.mode = Mode::Gig;
                HttpReply { status: http::OK, body: "gig\n".to_owned() }
            },
        }
    }
}

/// What kept a connection to mod-host from being made, where something did.
pub open spec fn refused_by(tried: Result<ModHostClient, Error>) -> Option<modhost::ErrorView> {
    match tried {
        Ok(_) => None,
        Err(e) => Some(e.deep_view()),
    }
}

/// The mode after a request to set it, and the answer, given how the isolation of the target ended
/// and whether mod-host could be reached.
pub open spec fn mode_request(
    bridge: BridgeState,
    set: Option<Seq<char>>,
    isolation: CommandResult,
    refused: Option<modhost::ErrorView>,
) -> (Mode, ReplyView) {
    let reconnect = match refused {
        Some(e) => (bridge.mode, reconnect_failure(e)),
        None => (Mode::Studio, studio_reply()),
    };
    match first_step(bridge, false, set) {
        ModeStepView::Reply(reply) => (bridge.mode, reply),
        ModeStepView::IsolateGig { .. } => match isolation_failure(isolation) {
            Some(reply) => (bridge.mode, reply),
            None => (Mode::Gig, gig_reply()),
        },
        ModeStepView::IsolateDev { .. } => match isolation_failure(isolation) {
            Some(reply) => (bridge.mode, reply),
            None => reconnect,
        },
        _ => reconnect,
    }
}

/// A request to set the mode that is answered with success leaves the mode that was asked for, and
/// the answer is what asking for the mode then gives. Any other answer leaves the mode as it was.
pub proof fn law_mode_request(
    bridge: BridgeState,
    set: Option<Seq<char>>,
    isolation: CommandResult,
    refused: Option<modhost::ErrorView>,
)
    ensures
        ({
            let (mode, reply) = mode_request(bridge, set, isolation, refused);
            if reply.status == http::OK {
                &&& set == Some(mode_name(mode))
                &&& first_step(BridgeState { mode, ..bridge }, true, None) == ModeStepView::Reply(
                    reply,
                )
            } else {
                mode == bridge.mode
            }
        }),
{
    reveal_strlit("studio\n");
    reveal_strlit("gig\n");
    reveal_strlit("studio");
    reveal_strlit("gig");
    reveal_strlit("\n");
    assert("studio\n"@ =~= "studio"@ + "\n"@);
    assert("gig\n"@ =~= "gig"@ + "\n"@);
}

/// A request for gig succeeds if and only if its target is isolated. One for studio succeeds if and
/// only if mod-host is reached and, where the mode is gig, the development target is isolated before
/// that. What failed first is what is answered.
pub proof fn law_when_a_mode_is_set(
    bridge: BridgeState,
    isolation: CommandResult,
    refused: Option<modhost::ErrorView>,
)
    ensures
        ({
            let (mode, reply) = mode_request(bridge, Some("gig"@), isolation, refused);
            &&& reply.status == http::OK <==> isolation is Succeeded
            &&& isolation is Succeeded ==> mode == Mode::Gig
            &&& !(isolation is Succeeded) ==> reply.status == http::INTERNAL_SERVER_ERROR
        }),
        ({
            let (mode, reply) = mode_request(bridge, Some("studio"@), isolation, refused);
            let stuck = bridge.mode == Mode::Gig && !(isolation is Succeeded);
            &&& reply.status == http::OK <==> !stuck && refused is None
            &&& !stuck && refused is None ==> mode == Mode::Studio
            &&& stuck ==> reply.status == http::INTERNAL_SERVER_ERROR
            &&& !stuck ==> (refused matches Some(e) ==> reply.status == http::SERVICE_UNAVAILABLE
                && reply.body == "mod-host reconnect failed: "@ + modhost::error_text(e) + "\n"@)
        }),
{
    reveal_strlit("studio");
    reveal_strlit("gig");
    assert("studio"@.len() == 6);
    assert("gig"@.len() == 3);
}

/// Asking for the mode changes nothing and is answered with its name, whatever else is asked.
pub proof fn law_mode_is_told(bridge: BridgeState, set: Option<Seq<char>>)
    ensures
        first_step(bridge, true, set) matches ModeStepView::Reply(reply) && reply.status == http::OK
            && reply.body == mode_name(bridge.mode) + "\n"@,
{
}

/// A request for studio goes to mod-host: at once where the mode is studio, and by way of the
/// development target where it is gig. One for gig goes to the gig target. Any other request is
/// refused.
pub proof fn law_mode_requests(bridge: BridgeState, set: Option<Seq<char>>)
    ensures
        set == Some("studio"@) && bridge.mode == Mode::Studio ==> first_step(bridge, false, set) == (
        ModeStepView::Reconnect { pause_millis: 0, addr: bridge.modhost_addr@ }),
        set == Some("studio"@) && bridge.mode == Mode::Gig ==> first_step(bridge, false, set) == (
        ModeStepView::IsolateDev { target: "pedalboard-dev.target"@ }),
        set == Some("gig"@) ==> first_step(bridge, false, set) == (ModeStepView::IsolateGig {
            target: "pedalboard-gig.target"@,
        }),
        set != Some("studio"@) && set != Some("gig"@) ==> (first_step(
            bridge,
            false,
            set,
        ) matches ModeStepView::Reply(reply) && reply.status == http::BAD_REQUEST),
{
    reveal_strlit("studio");
    reveal_strlit("gig");
    assert("studio"@.len() == 6);
    assert("gig"@.len() == 3);
}

/// A target that was not isolated is answered with what the system said of it, under the status of a
/// failure on this side, and one that was is not answered yet.
pub proof fn law_failures_tell_the_cause(status: String, cause: String, e: modhost::ErrorView)
    ensures
        isolation_failure(CommandResult::Succeeded) is None,
        isolation_failure(CommandResult::Failed(status)) matches Some(reply) && reply.status
            == http::INTERNAL_SERVER_ERROR && reply.body
            == "systemctl isolate failed with exit code: "@ + status@ + "\n"@,
        isolation_failure(CommandResult::NotRun(cause)) matches Some(reply) && reply.status
            == http::INTERNAL_SERVER_ERROR && reply.body == "failed to execute systemctl: "@ + cause@
            + "\n"@,
        reconnect_failure(e).status == http::SERVICE_UNAVAILABLE,
        reconnect_failure(e).body == "mod-host reconnect failed: "@ + modhost::error_text(e) + "\n"@,
{
}

/// What is restored is the first snapshot: the steps are those of a switch to it by its name, and
/// there are none where there is no snapshot. Without an engine there is nothing to restore.
pub proof fn law_first_snapshot_is_restored(engine: AudioEngine)
    ensures
        restore_plan(None) is None,
        restore_plan(Some(engine)) matches Some(task) && task.done == 0 && task.steps == (
        if engine@.config.snapshots.len() > 0 {
            audio::switch_plan(engine@, engine@.config.snapshots[0].name)
        } else {
            Seq::empty()
        }),
{
}

} // verus!
