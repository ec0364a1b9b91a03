//! POST /deploy: a full setlist is validated, its audio rig is loaded, and its presets are
//! uploaded to the firmware. Progress is reported line by line.
use vstd::prelude::*;

use crate::audio;
use crate::audio::{AudioConfig, AudioEngine, EngineView, Progress, Step, Task, TaskView};
use crate::http;
use crate::http::{HttpReply, ReplyView};
use crate::mode::BridgeState;
use crate::text;
use crate::tone;
use crate::uploads;
use crate::uploads::{Setlist, SetlistView, Upload, UploadView};

verus! {

/// A list of errors, one to a line.
pub open spec fn error_lines(errors: Seq<Seq<char>>) -> Seq<char>
    decreases errors.len(),
{
    if errors.len() == 0 {
        "error: validation failed\n"@
    } else {
        error_lines(errors.drop_last()) + "  • "@ + errors.last() + "\n"@
    }
}

/// The refusal of a setlist that could not be read, or in which there are errors.
pub open spec fn refusal(checked: Result<Seq<Seq<char>>, Seq<char>>) -> Option<ReplyView> {
    match checked {
        Err(cause) => Some(
            ReplyView {
                status: http::BAD_REQUEST,
                body: "error: YAML parse error: "@ + cause + "\n"@,
            },
        ),
        Ok(errors) => if errors.len() > 0 {
            Some(
                ReplyView { status: http::UNPROCESSABLE_ENTITY, body: error_lines(errors) },
            )
        } else {
            None
        },
    }
}

/// A setlist as it was received.
#[derive(Debug)]
pub enum Received {
    /// The text is no setlist; holds what is wrong with it as YAML.
    Unreadable(String),
    /// The text is a setlist, with the errors that its validation found.
    Read { setlist: Setlist, errors: Vec<String> },
}

/// What the check of a received setlist gave.
pub open spec fn checked(received: Received) -> Result<Seq<Seq<char>>, Seq<char>> {
    match received {
        Received::Unreadable(cause) => Err(cause@),
        Received::Read { errors, .. } => Ok(errors.deep_view()),
    }
}

fn list_errors(errors: &Vec<String>) -> (r: String)
    ensures
        r@ == error_lines(errors.deep_view()),
{
    let mut body = "error: validation failed\n".to_owned();
    let mut i: usize = 0;
    assert(errors.deep_view().take(0) =~= Seq::<Seq<char>>::empty());
    while i < errors.len()
        invariant
            i <= errors.len(),
            body@ == error_lines(errors.deep_view().take(i as int)),
        decreases errors.len() - i,
    {
        let ghost upto = errors.deep_view().take(i + 1);
        assert(upto.drop_last() =~= errors.deep_view().take(i as int));
        assert(upto.last() == errors[i as int]@);
        body.append("  • ");
        body.append(errors[i].as_str());
        body.append("\n");
        i = i + 1;
    }
    assert(errors.deep_view().take(i as int) =~= errors.deep_view());
    body
}

/// The last lines of the report.
pub open spec fn closing_lines(count: nat) -> Seq<Seq<char>> {
    (if uploads::stale_slots(count) > 0 {
        seq!["cleared "@ + text::decimal(uploads::stale_slots(count)) + " stale slot(s)\n"@]
    } else {
        Seq::empty()
    }).push("done: deployed ("@ + text::decimal(count) + " presets)\n"@)
}

/// The report of a loaded rig.
pub open spec fn rig_line(config: audio::ConfigView) -> Seq<char> {
    "audio: rig loaded ("@ + text::decimal(config.plugins.len()) + " plugins, "@ + text::decimal(
        config.connections.len(),
    ) + " connections)\n"@
}

/// The report of the active snapshot.
pub open spec fn snapshot_line(active: Option<Seq<char>>) -> Seq<char> {
    "audio: snapshot '"@ + (match active {
        Some(name) => name,
        None => "?"@,
    }) + "' active\n"@
}

/// What the caller of a [`Deploy`] has done.
#[derive(Debug)]
pub enum DeployEvent {
    /// The audio configuration was read, or could not be read.
    ConfigLoaded(Result<AudioConfig, String>),
    /// The current step was performed, or failed.
    Performed(Result<(), String>),
    /// The firmware replied in time, or did not.
    Replied(bool),
    /// The pause is over.
    Paused,
}

/// What the caller of a [`Deploy`] has to do.
#[derive(Debug)]
pub enum DeployNext {
    /// Read the audio configuration from the setlist's text.
    LoadConfig,
    /// Perform the current step: see [`Deploy::current`].
    Perform,
    /// Send a message to the firmware, and wait so long for a reply.
    Send { message: Vec<u8>, wait_millis: u64 },
    /// Wait.
    Pause { millis: u64 },
    /// Nothing: all is done.
    Finished,
}

/// The model of a [`DeployNext`].
pub enum NextView {
    LoadConfig,
    Perform,
    Send { message: Seq<u8>, wait_millis: u64 },
    Pause { millis: u64 },
    Finished,
}

impl DeepView for DeployNext {
    type V = NextView;

    open spec fn deep_view(&self) -> NextView {
        match self {
            DeployNext::LoadConfig => NextView::LoadConfig,
            DeployNext::Perform => NextView::Perform,
            DeployNext::Send { message, wait_millis } => NextView::Send {
                message: message@,
                wait_millis: *wait_millis,
            },
            DeployNext::Pause { millis } => NextView::Pause { millis: *millis },
            DeployNext::Finished => NextView::Finished,
        }
    }
}

/// Lines to report, and what to do then.
#[derive(Debug)]
pub struct DeployStep {
    pub lines: Vec<String>,
    pub next: DeployNext,
}

/// Where a deployment stands.
pub enum StageView {
    /// The audio configuration is being read.
    Config,
    /// The rig is being loaded.
    Rig { engine: EngineView, task: TaskView },
    /// The first snapshot is being switched to.
    Switch { engine: EngineView, task: TaskView },
    /// The reply to an upload is being waited for.
    Waiting { at: int },
    /// The pause after an upload is on.
    Pausing { at: int },
    Done,
}

/// The model of a [`Deploy`]: where it stands, what is uploaded where uploads are possible, and how
/// many presets there are.
pub struct DeployView {
    pub stage: StageView,
    pub uploads: Option<Seq<UploadView>>,
    pub count: nat,
}

impl DeployView {
    /// There is a step to perform while a task is on, and an upload while one is on.
    pub open spec fn wf(self) -> bool {
        match self.stage {
            StageView::Rig { task, .. } => 0 <= task.done < task.steps.len(),
            StageView::Switch { task, .. } => 0 <= task.done < task.steps.len(),
            StageView::Waiting { at } => self.uploads is Some && 0 <= at < self.uploads->0.len(),
            StageView::Pausing { at } => self.uploads is Some && 0 <= at < self.uploads->0.len(),
            _ => true,
        }
    }

    /// The event answers what was to be done.
    pub open spec fn accepts(self, event: DeployEvent) -> bool {
        match event {
            DeployEvent::ConfigLoaded(loaded) => {
                &&& self.stage is Config
                &&& loaded matches Ok(config) ==> config.deep_view().wf()
            },
            DeployEvent::Performed(_) => self.stage is Rig || self.stage is Switch,
            DeployEvent::Replied(_) => self.stage is Waiting,
            DeployEvent::Paused => self.stage is Pausing,
        }
    }
}

/// What an event comes to: the deployment after it, the engine that the bridge gets, the lines to
/// report, and what to do next.
pub struct OutcomeView {
    pub deploy: DeployView,
    pub installed: Option<EngineView>,
    pub lines: Seq<Seq<char>>,
    pub next: NextView,
}

/// Goes on with the upload `at`, or ends the deployment where none is left.
pub open spec fn upload_from(
    deploy: DeployView,
    at: int,
    installed: Option<EngineView>,
    lines: Seq<Seq<char>>,
) -> OutcomeView {
    match deploy.uploads {
        None => OutcomeView {
            deploy: DeployView { stage: StageView::Done, ..deploy },
            installed,
            lines: lines.push("midi: JACK not available (skipped firmware upload)\n"@).push(
                "done\n"@,
            ),
            next: NextView::Finished,
        },
        Some(uploads) => if at < uploads.len() {
            OutcomeView {
                deploy: DeployView { stage: StageView::Waiting { at }, ..deploy },
                installed,
                lines,
                next: NextView::Send {
                    message: uploads[at].message,
                    wait_millis: uploads[at].wait_millis,
                },
            }
        } else {
            OutcomeView {
                deploy: DeployView { stage: StageView::Done, ..deploy },
                installed,
                lines: lines + closing_lines(deploy.count),
                next: NextView::Finished,
            }
        },
    }
}

/// Ends the audio part: the bridge gets the engine, and the uploads begin.
pub open spec fn audio_done(
    deploy: DeployView,
    engine: EngineView,
    lines: Seq<Seq<char>>,
) -> OutcomeView {
    upload_from(deploy, 0, Some(engine), lines)
}

/// An engine whose rig is not loaded yet.
pub open spec fn fresh(config: audio::ConfigView) -> EngineView {
    EngineView { config, active: None, rig_loaded: false }
}

/// Goes on to a step of a task.
pub open spec fn perform(
    deploy: DeployView,
    stage: StageView,
    lines: Seq<Seq<char>>,
) -> OutcomeView {
    OutcomeView {
        deploy: DeployView { stage, ..deploy },
        installed: None,
        lines,
        next: NextView::Perform,
    }
}

/// Goes on once the rig is loaded.
pub open spec fn rig_done(deploy: DeployView, engine: EngineView) -> OutcomeView {
    let steps = audio::index_plan(engine, 0);
    if steps.len() > 0 {
        perform(
            deploy,
            StageView::Switch { engine, task: TaskView { steps, done: 0 } },
            seq![rig_line(engine.config)],
        )
    } else {
        audio_done(
            deploy,
            engine,
            seq![rig_line(engine.config), snapshot_line(engine.active)],
        )
    }
}

/// What the text of a failure is.
pub open spec fn cause(result: Result<(), String>) -> Seq<char> {
    match result {
        Ok(_) => Seq::empty(),
        Err(e) => e@,
    }
}

/// What is reported of a reply.
pub open spec fn reply_lines(upload: UploadView, replied: bool) -> Seq<Seq<char>> {
    match if replied {
        upload.acked
    } else {
        upload.missed
    } {
        Some(line) => seq![line],
        None => Seq::empty(),
    }
}

/// What an event comes to; `connected` says whether mod-host is connected.
pub open spec fn outcome(deploy: DeployView, connected: bool, event: DeployEvent) -> OutcomeView {
    match (deploy.stage, event) {
        (_, DeployEvent::ConfigLoaded(Err(e))) => upload_from(
            deploy,
            0,
            None,
            seq!["audio: parse error: "@ + e@ + "\n"@],
        ),
        (_, DeployEvent::ConfigLoaded(Ok(config))) => {
            let engine = fresh(config.deep_view());
            if connected {
                perform(
                    deploy,
                    StageView::Rig {
                        engine,
                        task: TaskView { steps: audio::rig_plan(engine.config), done: 0 },
                    },
                    Seq::empty(),
                )
            } else {
                audio_done(deploy, engine, seq!["audio: mod-host not connected (skipped)\n"@])
            }
        },
        (StageView::Rig { engine, task }, DeployEvent::Performed(result)) => {
            let after = audio::advanced(engine, task, result is Ok);
            match after.progress {
                Progress::Continue => perform(
                    deploy,
                    StageView::Rig { engine: after.engine, task: after.task },
                    Seq::empty(),
                ),
                Progress::Finished => rig_done(deploy, after.engine),
                Progress::Failed => audio_done(
                    deploy,
                    after.engine,
                    seq!["audio: rig load failed: "@ + cause(result) + "\n"@],
                ),
            }
        },
        (StageView::Switch { engine, task }, DeployEvent::Performed(result)) => {
            let after = audio::advanced(engine, task, result is Ok);
            match after.progress {
                Progress::Continue => perform(
                    deploy,
                    StageView::Switch { engine: after.engine, task: after.task },
                    Seq::empty(),
                ),
                Progress::Finished => audio_done(
                    deploy,
                    after.engine,
                    seq![snapshot_line(after.engine.active)],
                ),
                Progress::Failed => audio_done(
                    deploy,
                    after.engine,
                    seq!["audio: snapshot switch failed: "@ + cause(result) + "\n"@],
                ),
            }
        },
        (StageView::Waiting { at }, DeployEvent::Replied(replied)) => {
            let upload = deploy.uploads->0[at];
            if upload.pause_millis > 0 {
                OutcomeView {
                    deploy: DeployView { stage: StageView::Pausing { at }, ..deploy },
                    installed: None,
                    lines: reply_lines(upload, replied),
                    next: NextView::Pause { millis: upload.pause_millis },
                }
            } else {
                upload_from(deploy, at + 1, None, reply_lines(upload, replied))
            }
        },
        (StageView::Pausing { at }, _) => upload_from(deploy, at + 1, None, Seq::empty()),
        _ => upload_from(deploy, 0, None, Seq::empty()),
    }
}

/// The bridge after it got an engine, or nothing.
pub open spec fn installed_into(
    before: BridgeState,
    engine: Option<EngineView>,
    after: BridgeState,
) -> bool {
    match engine {
        None => after == before,
        Some(view) => {
            &&& after.audio_engine matches Some(engine)
            &&& engine@ == view
            &&& after == (BridgeState { audio_engine: after.audio_engine, ..before })
        },
    }
}

#[derive(Debug)]
enum DeployStage {
    Config,
    Rig { engine: AudioEngine, task: Task },
    Switch { engine: AudioEngine, task: Task },
    Waiting { at: usize },
    Pausing { at: usize },
    Done,
}

impl DeployStage {
    spec fn model(self) -> StageView {
        match self {
            DeployStage::Config => StageView::Config,
            DeployStage::Rig { engine, task } => StageView::Rig { engine: engine@, task: task@ },
            DeployStage::Switch { engine, task } => StageView::Switch {
                engine: engine@,
                task: task@,
            },
            DeployStage::Waiting { at } => StageView::Waiting { at: at as int },
            DeployStage::Pausing { at } => StageView::Pausing { at: at as int },
            DeployStage::Done => StageView::Done,
        }
    }
}

/// A setlist on its way to mod-host and to the firmware. The caller does what each step says, and
/// reports it.
#[derive(Debug)]
pub struct Deploy {
    stage: DeployStage,
    uploads: Option<Vec<Upload>>,
    count: usize,
}

impl View for Deploy {
    type V = DeployView;

    closed spec fn view(&self) -> DeployView {
        DeployView {
            stage: self.stage.model(),
            uploads: self.uploads.deep_view(),
            count: self.count as nat,
        }
    }
}

fn push_line(lines: &mut Vec<String>, line: String)
    ensures
        final(lines).deep_view() == old(lines).deep_view().push(line@),
{
    let ghost before = lines.deep_view();
    lines.push(line);
    assert(lines.deep_view() =~= before.push(line@));
}

fn no_lines() -> (r: Vec<String>)
    ensures
        r.deep_view() == Seq::<Seq<char>>::empty(),
{
    let lines: Vec<String> = Vec::new();
    assert(lines.deep_view() =~= Seq::<Seq<char>>::empty());
    lines
}

fn one_line(line: String) -> (r: Vec<String>)
    ensures
        r.deep_view() == seq![line@],
{
    let mut lines = no_lines();
    push_line(&mut lines, line);
    assert(lines.deep_view() =~= seq![line@]);
    lines
}

fn push_closing(lines: &mut Vec<String>, count: usize)
    ensures
        final(lines).deep_view() == old(lines).deep_view() + closing_lines(count as nat),
{
    let ghost before = lines.deep_view();
    if count < uploads::MAX_PRESETS as usize {
        let mut line = "cleared ".to_owned();
        text::push_decimal(&mut line, (uploads::MAX_PRESETS as usize - count) as u64);
        line.append(" stale slot(s)\n");
        push_line(lines, line);
    }
    let mut line = "done: deployed (".to_owned();
    text::push_decimal(&mut line, count as u64);
    line.append(" presets)\n");
    push_line(lines, line);
    assert(lines.deep_view() =~= before + closing_lines(count as nat));
}

fn describe_rig(config: &AudioConfig) -> (r: String)
    ensures
        r@ == rig_line(config.deep_view()),
{
    let mut line = "audio: rig loaded (".to_owned();
    text::push_decimal(&mut line, config.plugins.len() as u64);
    line.append(" plugins, ");
    text::push_decimal(&mut line, config.connections.len() as u64);
    line.append(" connections)\n");
    line
}

fn describe_snapshot(engine: &AudioEngine) -> (r: String)
    ensures
        r@ == snapshot_line(engine@.active),
{
    let name = match engine.active_snapshot_name() {
        Some(name) => name,
        None => "?",
    };
    "audio: snapshot '".to_owned().concat(name).concat("' active\n")
}

impl Deploy {
    /// The step to perform now, while a task is on.
    pub fn current(&self) -> (r: Option<&Step>)
        requires
            self@.wf(),
        ensures
            match self@.stage {
                StageView::Rig { task, .. } => r.deep_view() == Some(task.steps[task.done]),
                StageView::Switch { task, .. } => r.deep_view() == Some(task.steps[task.done]),
                _ => r is None,
            },
    {
        match &self.stage {
            DeployStage::Rig { task, .. } => task.current(),
            DeployStage::Switch { task, .. } => task.current(),
            _ => None,
        }
    }

    fn upload_from(&mut self, at: usize, lines: Vec<String>) -> (r: DeployStep)
        ensures
            ({
                let out = upload_from(old(self)@, at as int, None, lines.deep_view());
                &&& final(self)@ == out.deploy
                &&& r.lines.deep_view() == out.lines
                &&& r.next.deep_view() == out.next
            }),
    {
        let mut lines = lines;
        match &self.uploads {
            None => {
                push_line(
                    &mut lines,
                    "midi: JACK not available (skipped firmware upload)\n".to_owned(),
                );
                push_line(&mut lines, "done\n".to_owned());
                self.stage = DeployStage::Done;
                DeployStep { lines, next: DeployNext::Finished }
            },
            Some(uploads) => {
                if at < uploads.len() {
                    let upload = &uploads[at];
                    assert(uploads.deep_view()[at as int] == upload.deep_view());
                    let next = DeployNext::Send {
                        message: upload.message.clone(),
                        wait_millis: upload.wait_millis,
                    };
                    assert(next.deep_view()->message =~= upload.message@);
                    self.stage = DeployStage::Waiting { at };
                    DeployStep { lines, next }
                } else {
                    push_closing(&mut lines, self.count);
                    self.stage = DeployStage::Done;
                    DeployStep { lines, next: DeployNext::Finished }
                }
            },
        }
    }

    fn audio_done(&mut self, bridge: &mut BridgeState, engine: AudioEngine, lines: Vec<String>) -> (r:
        DeployStep)
        ensures
            ({
                let out = audio_done(old(self)@, engine@, lines.deep_view());
                &&& final(self)@ == out.deploy
                &&& installed_into(*old(bridge), out.installed, *final(bridge))
                &&& r.lines.deep_view() == out.lines
                &&& r.next.deep_view() == out.next
            }),
    {
        bridge.audio_engine = Some(engine);
        self.upload_from(0, lines)
    }

    fn rig_done(&mut self, bridge: &mut BridgeState, engine: AudioEngine) -> (r: DeployStep)
        ensures
            ({
                let out = rig_done(old(self)@, engine@);
                &&& final(self)@ == out.deploy
                &&& installed_into(*old(bridge), out.installed, *final(bridge))
                &&& r.lines.deep_view() == out.lines
                &&& r.next.deep_view() == out.next
            }),
    {
        let mut lines = one_line(describe_rig(engine.config()));
        let task = engine.switch_snapshot_by_index(0);
        if task.current().is_some() {
            self.stage = DeployStage::Switch { engine, task };
            DeployStep { lines, next: DeployNext::Perform }
        } else {
            push_line(&mut lines, describe_snapshot(&engine));
            assert(lines.deep_view() =~= seq![
                rig_line(engine@.config),
                snapshot_line(engine@.active),
            ]);
            self.audio_done(bridge, engine, lines)
        }
    }

    fn config_loaded(&mut self, bridge: &mut BridgeState, config: AudioConfig) -> (r: DeployStep)
        requires
            config.deep_view().wf(),
        ensures
            ({
                let out = outcome(
                    old(self)@,
                    old(bridge).modhost.linked(),
                    DeployEvent::ConfigLoaded(Ok(config)),
                );
                &&& final(self)@ == out.deploy
                &&& installed_into(*old(bridge), out.installed, *final(bridge))
                &&& r.lines.deep_view() == out.lines
                &&& r.next.deep_view() == out.next
            }),
    {
        let engine = AudioEngine::new(config);
        if bridge.modhost.is_connected() {
            let task = engine.load_rig();
            self.stage = DeployStage::Rig { engine, task };
            DeployStep { lines: no_lines(), next: DeployNext::Perform }
        } else {
            self.audio_done(
                bridge,
                engine,
                one_line("audio: mod-host not connected (skipped)\n".to_owned()),
            )
        }
    }

    fn replied(&mut self, at: usize, replied: bool) -> (r: DeployStep)
        requires
            old(self)@.wf(),
            old(self)@.stage == (StageView::Waiting { at: at as int }),
        ensures
            ({
                let out = outcome(old(self)@, true, DeployEvent::Replied(replied));
                &&& final(self)@ == out.deploy
                &&& out.installed is None
                &&& r.lines.deep_view() == out.lines
                &&& r.next.deep_view() == out.next
            }),
    {
        let mut lines = no_lines();
        let mut pause_millis: u64 = 0;
        if let Some(uploads) = &self.uploads {
            let upload = &uploads[at];
            assert(uploads.deep_view()[at as int] == upload.deep_view());
            let report = if replied {
                &upload.acked
            } else {
                &upload.missed
            };
            if let Some(line) = report {
                push_line(&mut lines, line.clone());
            }
            pause_millis = upload.pause_millis;
            assert(lines.deep_view() =~= reply_lines(upload.deep_view(), replied));
        }
        if pause_millis > 0 {
            self.stage = DeployStage::Pausing { at };
            DeployStep { lines, next: DeployNext::Pause { millis: pause_millis } }
        } else {
            assert(at < self.uploads->0.len());
            self.upload_from(at + 1, lines)
        }
    }

    /// Takes up what the caller has done.
    #[verifier::rlimit(50)]
    pub fn advance(&mut self, bridge: &mut BridgeState, event: DeployEvent) -> (r: DeployStep)
        requires
            old(self)@.wf(),
            old(self)@.accepts(event),
        ensures
            ({
                let out = outcome(old(self)@, old(bridge).modhost.linked(), event);
                &&& final(self)@ == out.deploy
                &&& installed_into(*old(bridge), out.installed, *final(bridge))
                &&& r.lines.deep_view() == out.lines
                &&& r.next.deep_view() == out.next
            }),
            final(self)@.wf(),
    {
        let mut stage = DeployStage::Done;
        std::mem::swap(&mut stage, &mut self.stage);
        match event {
            DeployEvent::ConfigLoaded(Err(e)) => self.upload_from(
                0,
                one_line("audio: parse error: ".to_owned().concat(e.as_str()).concat("\n")),
            ),
            DeployEvent::ConfigLoaded(Ok(config)) => self.config_loaded(bridge, config),
            DeployEvent::Performed(result) => {
                let (failed, succeeded) = match result {
                    Ok(_) => (String::new(), true),
                    Err(e) => (e, false),
                };
                match stage {
                    DeployStage::Rig { engine, task } => {
                        let mut engine = engine;
                        let mut task = task;
                        match engine.advance(&mut task, succeeded) {
                            Progress::Continue => {
                                self.stage = DeployStage::Rig { engine, task };
                                DeployStep { lines: no_lines(), next: DeployNext::Perform }
                            },
                            Progress::Finished => self.rig_done(bridge, engine),
                            Progress::Failed => self.audio_done(
                                bridge,
                                engine,
                                one_line(
                                    "audio: rig load failed: ".to_owned().concat(
                                        failed.as_str(),
                                    ).concat("\n"),
                                ),
                            ),
                        }
                    },
                    DeployStage::Switch { engine, task } => {
                        let mut engine = engine;
                        let mut task = task;
                        match engine.advance(&mut task, succeeded) {
                            Progress::Continue => {
                                self.stage = DeployStage::Switch { engine, task };
                                DeployStep { lines: no_lines(), next: DeployNext::Perform }
                            },
                            Progress::Finished => {
                                let lines = one_line(describe_snapshot(&engine));
                                self.audio_done(bridge, engine, lines)
                            },
                            Progress::Failed => self.audio_done(
                                bridge,
                                engine,
                                one_line(
                                    "audio: snapshot switch failed: ".to_owned().concat(
                                        failed.as_str(),
                                    ).concat("\n"),
                                ),
                            ),
                        }
                    },
                    _ => self.upload_from(0, no_lines()),
                }
            },
            DeployEvent::Replied(replied) => match stage {
                DeployStage::Waiting { at } => {
                    self.stage = stage;
                    self.replied(at, replied)
                },
                _ => self.upload_from(0, no_lines()),
            },
            DeployEvent::Paused => match stage {
                DeployStage::Pausing { at } => {
                    assert(at < self.uploads->0.len());
                    self.upload_from(at + 1, no_lines())
                },
                _ => self.upload_from(0, no_lines()),
            },
        }
    }
}

/// How the deployment of a setlist starts; `available` says whether the firmware can be reached.
pub open spec fn started(setlist: SetlistView, available: bool) -> OutcomeView {
    let deploy = DeployView {
        stage: StageView::Config,
        uploads: if available {
            Some(uploads::upload_plan(setlist))
        } else {
            None
        },
        count: setlist.presets.len(),
    };
    if setlist.has_audio {
        OutcomeView {
            deploy,
            installed: None,
            lines: seq!["validate: ok\n"@],
            next: NextView::LoadConfig,
        }
    } else {
        upload_from(deploy, 0, None, seq!["validate: ok\n"@, "audio: unchanged\n"@])
    }
}

/// The firmware can be reached: there is a way to send to it and a way to hear its replies.
pub open spec fn reaches_firmware(bridge: BridgeState) -> bool {
    bridge.midi_out && bridge.sysex_in
}

/// POST /deploy: refuses a setlist that is not valid, or starts to deploy it, with the first step.
pub fn handle_deploy(received: Received, bridge: &BridgeState) -> (r: Result<
    (Deploy, DeployStep),
    HttpReply,
>)
    requires
        received matches Received::Read { setlist, errors } ==> (errors.len() == 0
            && reaches_firmware(*bridge) ==> setlist.deep_view().sendable()),
    ensures
        match (refusal(checked(received)), received) {
            (None, Received::Read { setlist, .. }) => {
                let out = started(setlist.deep_view(), reaches_firmware(*bridge));
                &&& r matches Ok((deploy, step))
                &&& deploy@ == out.deploy
                &&& deploy@.wf()
                &&& step.lines.deep_view() == out.lines
                &&& step.next.deep_view() == out.next
            },
            (Some(reply), _) => r matches Err(e) && e.deep_view() == reply,
            _ => false,
        },
{
    let (setlist, errors) = match received {
        Received::Unreadable(cause) => {
            return Err(
                HttpReply {
                    status: http::BAD_REQUEST,
                    body: "error: YAML parse error: ".to_owned().concat(cause.as_str()).concat(
                        "\n",
                    ),
                },
            );
        },
        Received::Read { setlist, errors } => (setlist, errors),
    };
    if errors.len() > 0 {
        return Err(
            HttpReply { status: http::UNPROCESSABLE_ENTITY, body: list_errors(&errors) },
        );
    }
    let mut lines = one_line("validate: ok\n".to_owned());
    let uploads = if bridge.midi_out && bridge.sysex_in {
        Some(uploads::plan_uploads(&setlist))
    } else {
        None
    };
    let mut deploy = Deploy {
        stage: DeployStage::Config,
        uploads,
        count: setlist.presets.len(),
    };
    let step = if setlist.has_audio {
        DeployStep { lines, next: DeployNext::LoadConfig }
    } else {
        push_line(&mut lines, "audio: unchanged\n".to_owned());
        assert(lines.deep_view() =~= seq!["validate: ok\n"@, "audio: unchanged\n"@]);
        deploy.upload_from(0, lines)
    };
    Ok((deploy, step))
}

/// The configuration that the audio part of a deployment is about.
pub open spec fn rig_config(stage: StageView) -> Option<audio::ConfigView> {
    match stage {
        StageView::Rig { engine, .. } => Some(engine.config),
        StageView::Switch { engine, .. } => Some(engine.config),
        _ => None,
    }
}

/// However mod-host fares, the bridge gets the engine for the new configuration: an event either
/// leaves the audio part of the deployment going, with that configuration, or ends it and installs
/// an engine with that configuration. No other event installs anything.
pub proof fn law_engine_is_installed(deploy: DeployView, connected: bool, event: DeployEvent)
    requires
        deploy.wf(),
        deploy.accepts(event),
    ensures
        ({
            let out = outcome(deploy, connected, event);
            let config = match event {
                DeployEvent::ConfigLoaded(Ok(config)) => Some(config.deep_view()),
                _ => rig_config(deploy.stage),
            };
            match config {
                None => out.installed is None && rig_config(out.deploy.stage) is None,
                Some(config) => {
                    ||| out.installed is None && rig_config(out.deploy.stage) == Some(config)
                    ||| rig_config(out.deploy.stage) is None && out.installed is Some
                        && out.installed->0.config == config
                },
            }
        }),
{
}

/// How far a deployment is from its end: the part that it is in, and what is left of that part.
pub open spec fn distance(deploy: DeployView) -> (int, int) {
    match deploy.stage {
        StageView::Config => (4, 0),
        StageView::Rig { task, .. } => (3, task.steps.len() - task.done),
        StageView::Switch { task, .. } => (2, task.steps.len() - task.done),
        StageView::Waiting { at } => (1, 2 * (deploy.uploads->0.len() - at) + 1),
        StageView::Pausing { at } => (1, 2 * (deploy.uploads->0.len() - at)),
        StageView::Done => (0, 0),
    }
}

/// Every event brings a deployment nearer to its end, so that it ends after finitely many. At the
/// end, and only then, nothing is left to do, and the last line that is reported starts with
/// "done".
#[verifier::rlimit(50)]
pub proof fn law_deployment_ends(deploy: DeployView, connected: bool, event: DeployEvent)
    requires
        deploy.wf(),
        deploy.accepts(event),
    ensures
        ({
            let out = outcome(deploy, connected, event);
            let before = distance(deploy);
            let after = distance(out.deploy);
            &&& out.deploy.wf()
            &&& 0 <= after.0
            &&& 0 <= after.1
            &&& after.0 < before.0 || after.0 == before.0 && after.1 < before.1
            &&& out.next is Finished <==> out.deploy.stage is Done
            &&& out.next is Finished ==> out.lines.len() > 0 && "done"@.is_prefix_of(
                out.lines.last(),
            )
        }),
{
    reveal_strlit("done");
    reveal_strlit("done\n");
    reveal_strlit("done: deployed (");
    assert("done\n"@.subrange(0, 4) =~= "done"@);
    let line = "done: deployed ("@ + text::decimal(deploy.count) + " presets)\n"@;
    assert(line.subrange(0, 4) =~= "done"@);
    if let DeployEvent::ConfigLoaded(Ok(config)) = event {
        audio::law_rig_leaves_all_bypassed(config.deep_view());
    }
}

/// A text that is no setlist is refused with what is wrong with it; a setlist is refused if and only
/// if there are errors in it.
pub proof fn law_refusals(cause: Seq<char>, errors: Seq<Seq<char>>)
    ensures
        refusal(Err(cause)) matches Some(reply) && reply.status == http::BAD_REQUEST && reply.body
            == "error: YAML parse error: "@ + cause + "\n"@,
        errors.len() > 0 ==> (refusal(Ok(errors)) matches Some(reply) && reply.status
            == http::UNPROCESSABLE_ENTITY && "error: validation failed\n"@.is_prefix_of(reply.body)),
        errors.len() == 0 ==> refusal(Ok(errors)) is None,
{
    lemma_error_lines_front(errors);
}

proof fn lemma_error_lines_front(errors: Seq<Seq<char>>)
    ensures
        "error: validation failed\n"@.is_prefix_of(error_lines(errors)),
    decreases errors.len(),
{
    let head = "error: validation failed\n"@;
    if errors.len() == 0 {
        assert(head.subrange(0, head.len() as int) =~= head);
    } else {
        lemma_error_lines_front(errors.drop_last());
        let before = error_lines(errors.drop_last());
        let all = error_lines(errors);
        assert(all.subrange(0, head.len() as int) =~= before.subrange(0, head.len() as int));
    }
}

/// Every error has a line of its own, in order, with nothing left out.
pub proof fn law_every_error_is_listed(errors: Seq<Seq<char>>, error: Seq<char>)
    ensures
        error_lines(Seq::empty()) == "error: validation failed\n"@,
        error_lines(errors.push(error)) == error_lines(errors) + "  • "@ + error + "\n"@,
{
    assert(errors.push(error).drop_last() =~= errors);
}

/// `d` is a number in decimal.
pub open spec fn tells(d: Seq<char>, n: nat) -> bool {
    text::natural(d) == Some(n)
}

/// A deployment ends with how many presets there were, after how many slots were cleared, where any
/// were: those that the presets left over of the firmware's thirty-two.
pub proof fn law_closing_lines(count: nat)
    ensures
        exists|d: Seq<char>|
            #[trigger] tells(d, count) && closing_lines(count).last() == "done: deployed ("@ + d
                + " presets)\n"@,
        count >= 32 ==> closing_lines(count).len() == 1,
        count < 32 ==> closing_lines(count).len() == 2 && exists|d: Seq<char>|
            #[trigger] tells(d, (32 - count) as nat) && closing_lines(count)[0] == "cleared "@ + d
                + " stale slot(s)\n"@,
{
    text::law_decimal_reads_back(count);
    assert(tells(text::decimal(count), count));
    if count < 32 {
        text::law_decimal_reads_back((32 - count) as nat);
        assert(tells(text::decimal((32 - count) as nat), (32 - count) as nat));
    }
}

/// A report of a loaded rig tells how many plugins and how many connections it has.
pub proof fn law_rig_line(config: audio::ConfigView)
    ensures
        exists|p: Seq<char>, c: Seq<char>|
            #[trigger] tells(p, config.plugins.len()) && #[trigger] tells(
                c,
                config.connections.len(),
            ) && rig_line(config) == "audio: rig loaded ("@ + p + " plugins, "@ + c
                + " connections)\n"@,
{
    text::law_decimal_reads_back(config.plugins.len());
    text::law_decimal_reads_back(config.connections.len());
    assert(tells(text::decimal(config.plugins.len()), config.plugins.len()));
    assert(tells(text::decimal(config.connections.len()), config.connections.len()));
}

/// A deployment starts with the report that the setlist is valid. One with an audio section goes on
/// to read it; without one, the audio is reported unchanged. What is uploaded is the plan of the
/// setlist where the firmware can be reached, and nothing where it cannot.
pub proof fn law_start(setlist: SetlistView, available: bool)
    ensures
        ({
            let out = started(setlist, available);
            &&& out.installed is None
            &&& out.lines[0] == "validate: ok\n"@
            &&& out.deploy.count == setlist.presets.len()
            &&& available ==> out.deploy.uploads == Some(uploads::upload_plan(setlist))
            &&& !available ==> out.deploy.uploads is None
            &&& setlist.has_audio ==> out.next is LoadConfig && out.lines.len() == 1
            &&& !setlist.has_audio ==> !(out.next is LoadConfig) && out.lines[1]
                == "audio: unchanged\n"@
        }),
{
}

/// What becomes of the audio configuration: one that cannot be read is reported with the cause and
/// changes nothing; one that can be read is loaded from the first step of its rig on, where mod-host
/// is connected, and is else kept for later, unloaded.
pub proof fn law_configuration_is_taken_up(
    deploy: DeployView,
    connected: bool,
    config: AudioConfig,
    e: String,
)
    ensures
        ({
            let out = outcome(deploy, connected, DeployEvent::ConfigLoaded(Err(e)));
            &&& out.installed is None
            &&& out.lines[0] == "audio: parse error: "@ + e@ + "\n"@
        }),
        ({
            let out = outcome(deploy, true, DeployEvent::ConfigLoaded(Ok(config)));
            &&& out.installed is None
            &&& out.lines.len() == 0
            &&& out.next is Perform
            &&& out.deploy.stage matches StageView::Rig { engine, task }
            &&& engine.config == config.deep_view()
            &&& engine.active is None
            &&& !engine.rig_loaded
            &&& task.done == 0
            &&& task.steps == audio::rig_plan(config.deep_view())
        }),
        ({
            let out = outcome(deploy, false, DeployEvent::ConfigLoaded(Ok(config)));
            &&& out.lines[0] == "audio: mod-host not connected (skipped)\n"@
            &&& out.installed matches Some(engine)
            &&& engine.config == config.deep_view()
            &&& engine.active is None
            &&& !engine.rig_loaded
        }),
{
}

/// While the rig is loaded or the snapshot is switched to, each report moves the task on by one step
/// and is not reported; a failure that ends it is reported with its cause, and the engine as it then
/// is becomes the bridge's.
pub proof fn law_audio_step_by_step(deploy: DeployView, connected: bool, result: Result<(), String>)
    requires
        deploy.wf(),
        deploy.stage is Rig || deploy.stage is Switch,
    ensures
        ({
            let out = outcome(deploy, connected, DeployEvent::Performed(result));
            let (engine, task) = match deploy.stage {
                StageView::Rig { engine, task } => (engine, task),
                StageView::Switch { engine, task } => (engine, task),
                _ => arbitrary(),
            };
            let step = task.steps[task.done];
            let last = task.done + 1 == task.steps.len();
            &&& result is Err && !step.tolerated ==> {
                &&& out.installed == Some(engine)
                &&& out.lines[0] == (if deploy.stage is Rig {
                    "audio: rig load failed: "@
                } else {
                    "audio: snapshot switch failed: "@
                }) + result->Err_0@ + "\n"@
            }
            &&& (result is Ok || step.tolerated) && !last ==> {
                &&& out.installed is None
                &&& out.lines.len() == 0
                &&& out.next is Perform
                &&& match out.deploy.stage {
                    StageView::Rig { task: now, .. } => deploy.stage is Rig && now.steps
                        == task.steps && now.done == task.done + 1,
                    StageView::Switch { task: now, .. } => deploy.stage is Switch && now.steps
                        == task.steps && now.done == task.done + 1,
                    _ => false,
                }
            }
            &&& (result is Ok || step.tolerated) && last && deploy.stage is Switch ==> {
                &&& out.installed matches Some(now)
                &&& out.lines[0] == "audio: snapshot '"@ + (match now.active {
                    Some(name) => name,
                    None => "?"@,
                }) + "' active\n"@
            }
            &&& (result is Ok || step.tolerated) && last && deploy.stage is Rig ==> out.lines[0]
                == rig_line(engine.config)
        }),
{
}

/// A deployment plays the first snapshot: once the rig is loaded, it goes on with steps that leave
/// each instance that the first snapshot mentions once with the bypass and the values that the
/// snapshot gives it, and that end with that snapshot active.
pub proof fn law_first_snapshot_is_played(
    deploy: DeployView,
    connected: bool,
    tone: tone::ToneView,
    i: int,
    id: u32,
)
    requires
        deploy.wf(),
        deploy.stage matches StageView::Rig { engine, task } && task.done + 1 == task.steps.len()
            && task.steps[task.done].action is RigLoaded && engine.active is None
            && engine.config.wf() && engine.config.snapshots.len() > 0 && 0 <= i
            < engine.config.snapshots[0].state.len() && tone::instance_of(
            engine.config.snapshots[0].state[i].0,
        ) == Some(id) && forall|k: int|
            0 <= k < engine.config.snapshots[0].state.len() && k != i ==> tone::instance_of(
                (#[trigger] engine.config.snapshots[0].state[k]).0,
            ) != Some(id),
    ensures
        ({
            let out = outcome(deploy, connected, DeployEvent::Performed(Ok(())));
            let config = rig_config(deploy.stage)->0;
            let state = config.snapshots[0].state[i].1;
            &&& out.deploy.stage matches StageView::Switch { engine, task }
            &&& engine.rig_loaded
            &&& task.done == 0
            &&& task.steps.last().action == (audio::ActionView::Activate {
                name: config.snapshots[0].name,
            })
            &&& ({
                let after = tone::told_all(tone, task.steps);
                &&& tone::is_told(after, id, state.bypassed == Some(true))
                &&& forall|k: int|
                    0 <= k < state.params.len() ==> tone::is_set(
                        after,
                        id,
                        (#[trigger] state.params[k]).0,
                        state.params[k].1,
                    )
            })
        }),
{
    if let StageView::Rig { engine, task } = deploy.stage {
        let now = EngineView { rig_loaded: true, ..engine };
        let name = engine.config.snapshots[0].name;
        tone::law_switch_by_index_plays_the_snapshot(tone, now, 0, i, id);
        audio::lemma_snapshot_position(engine.config.snapshots, name, 0);
        let plan = audio::index_plan(now, 0);
        assert(plan =~= audio::snapshot_plan(engine.config.snapshots[0]));
        assert(audio::advanced(engine, task, true).engine == now);
    }
}

/// The uploads go out in order and none is left out: a reply, or its absence, is reported as the
/// upload says, then comes the pause, where there is one, then the next upload, and after the last
/// one the end.
pub proof fn law_uploads_go_out_in_order(deploy: DeployView, connected: bool, replied: bool)
    requires
        deploy.wf(),
        deploy.stage is Waiting,
    ensures
        ({
            let at = deploy.stage->Waiting_at;
            let all = deploy.uploads->0;
            let upload = all[at];
            let out = outcome(deploy, connected, DeployEvent::Replied(replied));
            let paused = outcome(out.deploy, connected, DeployEvent::Paused);
            let then = if upload.pause_millis > 0 {
                paused
            } else {
                out
            };
            let line = if replied {
                upload.acked
            } else {
                upload.missed
            };
            &&& out.installed is None
            &&& then.deploy.uploads == deploy.uploads
            &&& line matches Some(said) ==> out.lines.len() > 0 && out.lines[0] == said
            &&& upload.pause_millis > 0 ==> out.next == (NextView::Pause {
                millis: upload.pause_millis,
            }) && out.lines.len() == (if line is Some {
                1nat
            } else {
                0nat
            })
            &&& at + 1 < all.len() ==> {
                &&& then.next == (NextView::Send {
                    message: all[at + 1].message,
                    wait_millis: all[at + 1].wait_millis,
                })
                &&& then.deploy.stage == (StageView::Waiting { at: at + 1 })
                &&& line is None ==> out.lines.len() == 0
            }
            &&& at + 1 == all.len() ==> {
                &&& then.next is Finished
                &&& then.lines.last() == closing_lines(deploy.count).last()
            }
        }),
{
}

/// After the audio part, the first upload goes out; without a firmware, that is reported and the
/// deployment is done.
pub proof fn law_uploads_begin(deploy: DeployView, engine: EngineView, lines: Seq<Seq<char>>)
    ensures
        ({
            let out = audio_done(deploy, engine, lines);
            &&& out.installed == Some(engine)
            &&& lines.is_prefix_of(out.lines)
            &&& deploy.uploads matches Some(all) ==> (all.len() > 0 ==> out.next == (
            NextView::Send { message: all[0].message, wait_millis: all[0].wait_millis })
                && out.lines == lines)
            &&& deploy.uploads is None ==> {
                &&& out.next is Finished
                &&& out.lines == lines + seq![
                    "midi: JACK not available (skipped firmware upload)\n"@,
                    "done\n"@,
                ]
            }
        }),
{
    let out = audio_done(deploy, engine, lines);
    assert(out.lines.subrange(0, lines.len() as int) =~= lines);
    if deploy.uploads is None {
        assert(out.lines =~= lines + seq![
            "midi: JACK not available (skipped firmware upload)\n"@,
            "done\n"@,
        ]);
    }
}

/// What comes next is the first upload, with these lines and no others reported before it. With
/// nothing to upload the deployment ends; that is reported too, and so is a firmware that cannot be
/// reached.
pub open spec fn leads_to_the_uploads(
    out: OutcomeView,
    deploy: DeployView,
    said: Seq<Seq<char>>,
) -> bool {
    &&& out.deploy.uploads == deploy.uploads
    &&& out.deploy.count == deploy.count
    &&& match deploy.uploads {
        None => {
            &&& out.next is Finished
            &&& out.lines.len() == said.len() + 2
            &&& out.lines.take(said.len() as int) == said
            &&& out.lines[said.len() as int]
                == "midi: JACK not available (skipped firmware upload)\n"@
            &&& out.lines.last() == "done\n"@
        },
        Some(all) if all.len() > 0 => {
            &&& out.next == (NextView::Send {
                message: all[0].message,
                wait_millis: all[0].wait_millis,
            })
            &&& out.deploy.stage == (StageView::Waiting { at: 0 })
            &&& out.lines == said
        },
        Some(_) => {
            &&& out.next is Finished
            &&& out.lines == said + closing_lines(deploy.count)
        },
    }
}

/// A deployment without an audio section leads to the uploads at once, after two lines.
pub proof fn law_start_without_audio(setlist: SetlistView, available: bool)
    requires
        !setlist.has_audio,
    ensures
        ({
            let out = started(setlist, available);
            &&& leads_to_the_uploads(
                out,
                out.deploy,
                seq!["validate: ok\n"@, "audio: unchanged\n"@],
            )
            &&& out.installed is None
        }),
{
    let out = started(setlist, available);
    let said = seq!["validate: ok\n"@, "audio: unchanged\n"@];
    assert(!available ==> out.lines.take(2) =~= said);
}

/// However the audio configuration fares, the uploads follow, after a line that says how: that it
/// could not be read, or that mod-host is not there.
pub proof fn law_uploads_follow_the_configuration(
    deploy: DeployView,
    config: AudioConfig,
    e: String,
    connected: bool,
)
    ensures
        leads_to_the_uploads(
            outcome(deploy, connected, DeployEvent::ConfigLoaded(Err(e))),
            deploy,
            seq!["audio: parse error: "@ + e@ + "\n"@],
        ),
        leads_to_the_uploads(
            outcome(deploy, false, DeployEvent::ConfigLoaded(Ok(config))),
            deploy,
            seq!["audio: mod-host not connected (skipped)\n"@],
        ),
{
    let refused = outcome(deploy, connected, DeployEvent::ConfigLoaded(Err(e)));
    let skipped = outcome(deploy, false, DeployEvent::ConfigLoaded(Ok(config)));
    if deploy.uploads is None {
        assert(refused.lines.take(1) =~= seq!["audio: parse error: "@ + e@ + "\n"@]);
        assert(skipped.lines.take(1) =~= seq!["audio: mod-host not connected (skipped)\n"@]);
    }
}

/// However mod-host fares, the uploads follow: after a failure with one line, which tells its cause;
/// after the switch with one line, which tells the snapshot; and after the rig of a configuration
/// without snapshots with two lines. With snapshots and none active, the report of the rig comes
/// alone, and the switch follows.
pub proof fn law_uploads_follow_the_audio(
    deploy: DeployView,
    connected: bool,
    result: Result<(), String>,
)
    requires
        deploy.wf(),
        deploy.stage is Rig || deploy.stage is Switch,
    ensures
        ({
            let out = outcome(deploy, connected, DeployEvent::Performed(result));
            let (engine, task) = match deploy.stage {
                StageView::Rig { engine, task } => (engine, task),
                StageView::Switch { engine, task } => (engine, task),
                _ => arbitrary(),
            };
            let step = task.steps[task.done];
            let done = (result is Ok || step.tolerated) && task.done + 1 == task.steps.len();
            &&& result is Err && !step.tolerated ==> leads_to_the_uploads(
                out,
                deploy,
                seq![
                    (if deploy.stage is Rig {
                        "audio: rig load failed: "@
                    } else {
                        "audio: snapshot switch failed: "@
                    }) + result->Err_0@ + "\n"@,
                ],
            )
            &&& done && deploy.stage is Switch ==> {
                &&& out.installed matches Some(now)
                &&& leads_to_the_uploads(
                    out,
                    deploy,
                    seq![
                        "audio: snapshot '"@ + (match now.active {
                            Some(name) => name,
                            None => "?"@,
                        }) + "' active\n"@,
                    ],
                )
            }
            &&& done && deploy.stage is Rig && step.action is RigLoaded && engine.active is None
                && engine.config.snapshots.len() == 0 ==> {
                &&& leads_to_the_uploads(
                    out,
                    deploy,
                    seq![
                        rig_line(engine.config),
                        "audio: snapshot '"@ + "?"@ + "' active\n"@,
                    ],
                )
                &&& out.installed == Some(
                    EngineView { rig_loaded: result is Ok || engine.rig_loaded, ..engine },
                )
            }
            &&& done && deploy.stage is Rig && step.action is RigLoaded && result is Ok
                && engine.active is None && engine.config.snapshots.len() > 0 ==> {
                &&& out.lines == seq![rig_line(engine.config)]
                &&& out.deploy.stage is Switch
                &&& out.next is Perform
                &&& out.installed is None
            }
        }),
{
    let out = outcome(deploy, connected, DeployEvent::Performed(result));
    let (engine, task) = match deploy.stage {
        StageView::Rig { engine, task } => (engine, task),
        StageView::Switch { engine, task } => (engine, task),
        _ => arbitrary(),
    };
    let after = audio::advanced(engine, task, result is Ok);
    if deploy.uploads is None && out.next is Finished {
        if after.progress == Progress::Failed {
            assert(out.lines.take(1) =~= seq![out.lines[0]]);
        } else if deploy.stage is Switch {
            assert(out.lines.take(1) =~= seq![out.lines[0]]);
        } else {
            assert(out.lines.take(2) =~= seq![out.lines[0], out.lines[1]]);
        }
    }
    if engine.active is None && engine.config.snapshots.len() > 0 {
        let name = engine.config.snapshots[0].name;
        audio::lemma_snapshot_position(engine.config.snapshots, name, 0);
        assert(audio::snapshot_plan(engine.config.snapshots[0]).len() > 0);
    }
}

/// A deployment uploads something if and only if the bridge can both send messages to the firmware
/// and receive its replies; with only one of the two, nothing is sent.
pub proof fn law_uploads_need_both_ways(setlist: SetlistView, bridge: BridgeState)
    ensures
        started(setlist, reaches_firmware(bridge)).deploy.uploads is Some <==> bridge.midi_out
            && bridge.sysex_in,
        !bridge.midi_out || !bridge.sysex_in ==> !(started(
            setlist,
            reaches_firmware(bridge),
        ).next is Send),
{
}

} // verus!
