use pedalboard_bridge::audio::{Action, AudioConfig, AudioEngine, AudioSnapshot, ExpressionTarget, PedalMapping};
use pedalboard_bridge::http::{CommandResult, HttpReply};
use pedalboard_bridge::midi::MidiEvent;
use pedalboard_bridge::mode::{BridgeState, Mode, ModeQuery, ModeStep};
use pedalboard_bridge::server::{handle_status, normalize_addr, MidiStep, RECONNECT_SECS};
use pedalboard_bridge::websocket::{handle_monitor, handle_raw, RelayStep, WsMessage};
use pedalboard_bridge::{Error, ModHostClient};

fn engine() -> AudioEngine {
    AudioEngine::new(AudioConfig {
        plugins: vec![],
        connections: vec![],
        snapshots: vec![AudioSnapshot {
            name: "Clean".to_string(),
            state: vec![],
            expression: vec![(
                "Exp1".to_string(),
                ExpressionTarget { instance: 4, param: "MASTER".to_string(), min: None, max: None },
            )],
        }],
        expression: Some(vec![PedalMapping { name: "Exp1".to_string(), cc: 7, channel: None }]),
    })
}

fn bridge(mode: Mode, connected: bool, engine: Option<AudioEngine>) -> BridgeState {
    BridgeState {
        modhost: if connected { ModHostClient::connect(Ok(())).unwrap() } else { ModHostClient::disconnected() },
        audio_engine: engine,
        mode,
        design_mode: false,
        modhost_addr: "localhost:5555".to_string(),
        midi_out: false,
        sysex_in: false,
    }
}

fn set(name: &str) -> ModeQuery {
    ModeQuery { set: Some(name.to_string()) }
}

fn answer(step: ModeStep) -> (u16, String) {
    match step {
        ModeStep::Reply(HttpReply { status, body }) => (status, body),
        other => panic!("{other:?}"),
    }
}

/// Makes the first snapshot of the engine the active one.
fn activate(bridge: &mut BridgeState) {
    let mut task = bridge.restore().unwrap();
    let engine = bridge.audio_engine.as_mut().unwrap();
    while task.current().is_some() {
        engine.advance(&mut task, true);
    }
}

#[test]
fn mode_names() {
    assert_eq!(Mode::Studio.as_str(), "studio");
    assert_eq!(Mode::Gig.as_str(), "gig");
    assert_eq!(Mode::default(), Mode::Studio);
}

#[test]
fn mode_is_told() {
    let query = ModeQuery { set: None };
    assert_eq!(answer(bridge(Mode::Studio, true, None).handle_mode(true, &query)), (200, "studio\n".to_string()));
    assert_eq!(answer(bridge(Mode::Gig, true, None).handle_mode(true, &set("studio"))), (200, "gig\n".to_string()));
}

#[test]
fn unknown_modes_are_refused() {
    let bridge = bridge(Mode::Studio, true, None);
    let usage = (400, "use ?set=studio or ?set=gig\n".to_string());
    assert_eq!(answer(bridge.handle_mode(false, &ModeQuery { set: None })), usage);
    assert_eq!(answer(bridge.handle_mode(false, &set("live"))), usage);
    assert_eq!(answer(bridge.handle_mode(false, &set("Studio"))), usage);
}

#[test]
fn studio_to_gig() {
    let mut bridge = bridge(Mode::Studio, true, None);
    match bridge.handle_mode(false, &set("gig")) {
        ModeStep::IsolateGig { target } => assert_eq!(target, "pedalboard-gig.target"),
        other => panic!("{other:?}"),
    }
    let reply = bridge.gig_isolated(CommandResult::Failed("exit status: 1".to_string()));
    assert_eq!(reply.status, 500);
    assert_eq!(reply.body, "systemctl isolate failed with exit code: exit status: 1\n");
    assert_eq!(bridge.mode, Mode::Studio);
    let reply = bridge.gig_isolated(CommandResult::NotRun("no sudo".to_string()));
    assert_eq!((reply.status, reply.body.as_str()), (500, "failed to execute systemctl: no sudo\n"));
    assert_eq!(bridge.mode, Mode::Studio);
    let reply = bridge.gig_isolated(CommandResult::Succeeded);
    assert_eq!((reply.status, reply.body.as_str()), (200, "gig\n"));
    assert_eq!(bridge.mode, Mode::Gig);
}

#[test]
fn gig_to_studio() {
    let mut bridge = bridge(Mode::Gig, false, Some(engine()));
    match bridge.handle_mode(false, &set("studio")) {
        ModeStep::IsolateDev { target } => assert_eq!(target, "pedalboard-dev.target"),
        other => panic!("{other:?}"),
    }
    assert_eq!(
        answer(bridge.dev_isolated(CommandResult::Failed("exit status: 4".to_string()))),
        (500, "systemctl isolate failed with exit code: exit status: 4\n".to_string())
    );
    assert_eq!(
        answer(bridge.dev_isolated(CommandResult::NotRun("denied".to_string()))),
        (500, "failed to execute systemctl: denied\n".to_string())
    );
    match bridge.dev_isolated(CommandResult::Succeeded) {
        ModeStep::Reconnect { pause_millis, addr } => {
            assert_eq!(pause_millis, 1000);
            assert_eq!(addr, "localhost:5555");
        }
        other => panic!("{other:?}"),
    }
    assert_eq!(
        answer(bridge.reconnected(Err(Error::Connect("refused".to_string())))),
        (503, "mod-host reconnect failed: connection failed: refused\n".to_string())
    );
    assert_eq!(bridge.mode, Mode::Gig);
    assert!(!bridge.modhost.is_connected());
    match bridge.reconnected(ModHostClient::connect(Ok(()))) {
        ModeStep::Restore { task, reply } => {
            assert!(matches!(task.unwrap().current().unwrap().action, Action::RemoveAll));
            assert_eq!((reply.status, reply.body.as_str()), (200, "studio\n"));
        }
        other => panic!("{other:?}"),
    }
    assert_eq!(bridge.mode, Mode::Studio);
    assert!(bridge.modhost.is_connected());
}

#[test]
fn studio_to_studio_reconnects_at_once() {
    let mut bridge = bridge(Mode::Studio, true, None);
    match bridge.handle_mode(false, &set("studio")) {
        ModeStep::Reconnect { pause_millis, .. } => assert_eq!(pause_millis, 0),
        other => panic!("{other:?}"),
    }
    match bridge.reconnected(ModHostClient::connect(Ok(()))) {
        ModeStep::Restore { task, .. } => assert!(task.is_none()),
        other => panic!("{other:?}"),
    }
}

#[test]
fn listen_addresses() {
    assert_eq!(normalize_addr(":8080"), "0.0.0.0:8080");
    assert_eq!(normalize_addr("127.0.0.1:80"), "127.0.0.1:80");
    assert_eq!(normalize_addr(""), "");
}

#[test]
fn status_line() {
    assert_eq!(handle_status("0.3.0", "abc1234"), "pedalboard-bridge 0.3.0-abc1234\n");
}

#[test]
fn program_change_switches_the_snapshot() {
    let mut bridge = bridge(Mode::Studio, true, Some(engine()));
    match bridge.on_midi_event(MidiEvent::ProgramChange { program: 0 }) {
        MidiStep::Switch(task) => assert!(matches!(task.current().unwrap().action, Action::RemoveAll)),
        other => panic!("{other:?}"),
    }
    match bridge.on_midi_event(MidiEvent::ProgramChange { program: 1 }) {
        MidiStep::Switch(task) => assert!(task.current().is_none()),
        other => panic!("{other:?}"),
    }
    activate(&mut bridge);
    assert_eq!(bridge.audio_engine.as_ref().unwrap().active_snapshot_name(), Some("Clean"));
}

#[test]
fn control_change_is_routed() {
    let mut bridge = bridge(Mode::Studio, true, Some(engine()));
    let event = MidiEvent::ControlChange { channel: 1, cc: 7, value: 5 };
    assert!(matches!(bridge.on_midi_event(event), MidiStep::Ignore));
    activate(&mut bridge);
    match bridge.on_midi_event(event) {
        MidiStep::Route(route) => assert_eq!((route.instance, route.param.as_str(), route.value), (4, "MASTER", 5)),
        other => panic!("{other:?}"),
    }
    bridge.design_mode = true;
    assert!(matches!(bridge.on_midi_event(event), MidiStep::Ignore));
    bridge.design_mode = false;
    bridge.modhost = ModHostClient::disconnected();
    assert!(matches!(bridge.on_midi_event(event), MidiStep::Ignore));
    bridge.modhost = ModHostClient::connect(Ok(())).unwrap();
    bridge.audio_engine = None;
    assert!(matches!(bridge.on_midi_event(event), MidiStep::Ignore));
}

#[test]
fn start_and_reconnect() {
    assert!(bridge(Mode::Studio, true, Some(engine())).on_start().is_some());
    assert!(bridge(Mode::Studio, true, None).on_start().is_none());
    assert!(bridge(Mode::Studio, false, Some(engine())).on_start().is_none());
    assert_eq!(RECONNECT_SECS, 5);
    let mut lost = bridge(Mode::Studio, false, Some(engine()));
    assert!(lost.wants_reconnect());
    lost.design_mode = true;
    assert!(!lost.wants_reconnect());
    lost.design_mode = false;
    assert!(lost.on_reconnected(ModHostClient::connect(Ok(())).unwrap()).is_some());
    assert!(lost.modhost.is_connected());
    assert!(!lost.wants_reconnect());
}

#[test]
fn reconnect_does_not_load_the_rig_again() {
    let mut bridge = bridge(Mode::Studio, true, Some(engine()));
    activate(&mut bridge);
    let task = bridge.on_reconnected(ModHostClient::connect(Ok(())).unwrap()).unwrap();
    assert!(task.current().is_none());
}

#[test]
fn raw_clients_send() {
    assert!(matches!(handle_raw(WsMessage::Binary(vec![0xF0, 0xF7])), RelayStep::Forward(data) if data == vec![0xF0, 0xF7]));
    assert!(matches!(handle_raw(WsMessage::Other), RelayStep::Ignore));
    assert!(matches!(handle_raw(WsMessage::Close), RelayStep::Stop));
}

#[test]
fn monitor_clients_only_listen() {
    assert!(matches!(handle_monitor(WsMessage::Binary(vec![1])), RelayStep::Ignore));
    assert!(matches!(handle_monitor(WsMessage::Other), RelayStep::Ignore));
    assert!(matches!(handle_monitor(WsMessage::Close), RelayStep::Stop));
}
