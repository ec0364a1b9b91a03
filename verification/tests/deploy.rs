use pedalboard_bridge::audio::{Action, AudioConfig, AudioPlugin, AudioSnapshot};
use pedalboard_bridge::deploy::{handle_deploy, Deploy, DeployEvent, DeployNext, DeployStep, Received};
use pedalboard_bridge::global_config::GlobalConfig;
use pedalboard_bridge::mode::{BridgeState, Mode};
use pedalboard_bridge::presets::encode_presets;
use pedalboard_bridge::property_exchange::body_fits;
use pedalboard_bridge::uploads::{plan_uploads, PresetUpload, Setlist};
use pedalboard_bridge::ModHostClient;

fn bridge(connected: bool, midi: bool) -> BridgeState {
    BridgeState {
        modhost: if connected { ModHostClient::connect(Ok(())).unwrap() } else { ModHostClient::disconnected() },
        audio_engine: None,
        mode: Mode::Studio,
        design_mode: false,
        modhost_addr: String::new(),
        midi_out: midi,
        sysex_in: midi,
    }
}

fn config(snapshots: &[&str]) -> AudioConfig {
    AudioConfig {
        plugins: vec![AudioPlugin { id: 0, uri: "urn:amp".to_string(), model: None }],
        connections: vec![["a".to_string(), "b".to_string()], ["c".to_string(), "d".to_string()]],
        snapshots: snapshots
            .iter()
            .map(|name| AudioSnapshot { name: name.to_string(), state: vec![], expression: vec![] })
            .collect(),
        expression: None,
    }
}

fn setlist(has_audio: bool, presets: usize) -> Setlist {
    Setlist {
        has_audio,
        global: None,
        presets: (0..presets)
            .map(|i| PresetUpload { name: format!("P{i}"), data: Some(vec![i as u8]) })
            .collect(),
    }
}

fn read(setlist: Setlist) -> Received {
    Received::Read { setlist, errors: vec![] }
}

const SETTINGS: GlobalConfig = GlobalConfig {
    din_enabled: true,
    din_to_usb_thru: false,
    usb_to_din_thru: true,
    usb_to_usb_thru: false,
    midi_clock: true,
    bpm: 120,
    exp1_min: 0,
    exp1_max: 3750,
    exp2_min: 127,
    exp2_max: 65535,
};

/// How the world answers a deployment.
struct World {
    config: Option<Result<AudioConfig, String>>,
    failing: Option<usize>,
    replies: bool,
}

/// What a deployment did.
struct Trace {
    lines: Vec<String>,
    performed: usize,
    sent: Vec<(Vec<u8>, u64)>,
    pauses: Vec<u64>,
}

fn run(deploy: &mut Deploy, first: DeployStep, bridge: &mut BridgeState, mut world: World) -> Trace {
    let mut trace = Trace { lines: vec![], performed: 0, sent: vec![], pauses: vec![] };
    let mut step = first;
    loop {
        trace.lines.extend(step.lines);
        let event = match step.next {
            DeployNext::Finished => return trace,
            DeployNext::LoadConfig => DeployEvent::ConfigLoaded(world.config.take().unwrap()),
            DeployNext::Perform => {
                assert!(deploy.current().is_some());
                let fails = world.failing == Some(trace.performed);
                trace.performed += 1;
                DeployEvent::Performed(if fails { Err("it broke".to_string()) } else { Ok(()) })
            }
            DeployNext::Send { message, wait_millis } => {
                assert!(deploy.current().is_none());
                trace.sent.push((message, wait_millis));
                DeployEvent::Replied(world.replies)
            }
            DeployNext::Pause { millis } => {
                trace.pauses.push(millis);
                DeployEvent::Paused
            }
        };
        step = deploy.advance(bridge, event);
    }
}

fn deploy(setlist: Setlist, bridge: &mut BridgeState, world: World) -> Trace {
    let (mut deploy, first) = handle_deploy(read(setlist), bridge).unwrap();
    run(&mut deploy, first, bridge, world)
}

fn silent() -> World {
    World { config: None, failing: None, replies: false }
}

fn with_config(config: Result<AudioConfig, String>, failing: Option<usize>) -> World {
    World { config: Some(config), failing, replies: true }
}

#[test]
fn unreadable_setlist_is_refused() {
    let reply = handle_deploy(Received::Unreadable("bad indent".to_string()), &bridge(true, true)).unwrap_err();
    assert_eq!(reply.status, 400);
    assert_eq!(reply.body, "error: YAML parse error: bad indent\n");
}

#[test]
fn invalid_setlist_is_refused() {
    let received = Received::Read {
        setlist: setlist(true, 1),
        errors: vec!["no name".to_string(), "two names".to_string()],
    };
    let reply = handle_deploy(received, &bridge(true, true)).unwrap_err();
    assert_eq!(reply.status, 422);
    assert_eq!(reply.body, "error: validation failed\n  • no name\n  • two names\n");
}

#[test]
fn setlist_without_audio_and_midi() {
    let mut bridge = bridge(true, false);
    let trace = deploy(setlist(false, 2), &mut bridge, silent());
    assert_eq!(
        trace.lines,
        vec![
            "validate: ok\n",
            "audio: unchanged\n",
            "midi: JACK not available (skipped firmware upload)\n",
            "done\n",
        ]
    );
    assert!(bridge.audio_engine.is_none());
    assert!(trace.sent.is_empty());
}

#[test]
fn audio_is_deployed() {
    let mut bridge = bridge(true, false);
    let trace = deploy(setlist(true, 0), &mut bridge, with_config(Ok(config(&["Clean", "Lead"])), None));
    assert_eq!(
        trace.lines[..3],
        ["validate: ok\n", "audio: rig loaded (1 plugins, 2 connections)\n", "audio: snapshot 'Clean' active\n"]
    );
    let engine = bridge.audio_engine.unwrap();
    assert!(engine.is_rig_loaded());
    assert_eq!(engine.active_snapshot_name(), Some("Clean"));
}

#[test]
fn audio_without_snapshots() {
    let mut bridge = bridge(true, false);
    let trace = deploy(setlist(true, 0), &mut bridge, with_config(Ok(config(&[])), None));
    assert_eq!(
        trace.lines[1..3],
        ["audio: rig loaded (1 plugins, 2 connections)\n", "audio: snapshot '?' active\n"]
    );
    assert!(bridge.audio_engine.unwrap().is_rig_loaded());
}

#[test]
fn audio_failures_still_install_the_engine() {
    let mut state = bridge(true, false);
    let trace = deploy(setlist(true, 0), &mut state, with_config(Ok(config(&["Clean"])), Some(2)));
    assert_eq!(trace.lines[1], "audio: rig load failed: it broke\n");
    assert!(!state.audio_engine.unwrap().is_rig_loaded());

    let mut state = bridge(true, false);
    let trace = deploy(setlist(true, 0), &mut state, with_config(Ok(config(&["Clean"])), Some(8)));
    assert_eq!(
        trace.lines[1..3],
        ["audio: rig loaded (1 plugins, 2 connections)\n", "audio: snapshot switch failed: it broke\n"]
    );
    let engine = state.audio_engine.unwrap();
    assert!(engine.is_rig_loaded());
    assert_eq!(engine.active_snapshot_name(), None);

    let mut state = bridge(false, false);
    let trace = deploy(setlist(true, 0), &mut state, with_config(Ok(config(&["Clean"])), None));
    assert_eq!(trace.lines[1], "audio: mod-host not connected (skipped)\n");
    assert_eq!(trace.performed, 0);
    assert!(!state.audio_engine.unwrap().is_rig_loaded());
}

#[test]
fn unreadable_audio_changes_nothing() {
    let mut bridge = bridge(true, false);
    let trace = deploy(setlist(true, 0), &mut bridge, with_config(Err("no plugins".to_string()), None));
    assert_eq!(trace.lines[1], "audio: parse error: no plugins\n");
    assert!(bridge.audio_engine.is_none());
}

#[test]
fn first_step_of_the_rig() {
    let mut bridge = bridge(true, false);
    let (mut deploy, first) = handle_deploy(read(setlist(true, 0)), &bridge).unwrap();
    assert!(matches!(first.next, DeployNext::LoadConfig));
    assert!(deploy.current().is_none());
    let step = deploy.advance(&mut bridge, DeployEvent::ConfigLoaded(Ok(config(&[]))));
    assert!(matches!(step.next, DeployNext::Perform));
    assert!(matches!(deploy.current().unwrap().action, Action::RemoveAll));
}

#[test]
fn presets_are_uploaded_and_stale_slots_cleared() {
    let mut bridge = bridge(false, true);
    let mut list = setlist(false, 2);
    list.global = Some(SETTINGS);
    let trace = deploy(list, &mut bridge, World { config: None, failing: None, replies: true });
    assert_eq!(
        trace.lines,
        vec![
            "validate: ok\n",
            "audio: unchanged\n",
            "global: ACK ✓\n",
            "preset 0 \"P0\": ACK ✓\n",
            "preset 1 \"P1\": ACK ✓\n",
            "cleared 30 stale slot(s)\n",
            "done: deployed (2 presets)\n",
        ]
    );
    assert_eq!(trace.sent.len(), 33);
    assert!(trace.pauses.is_empty());
    assert!(trace.sent[..3].iter().all(|s| s.1 == 5000));
    assert!(trace.sent[3..].iter().all(|s| s.1 == 500));
    for slot in 0..32 {
        let message = &trace.sent[1 + slot].0;
        assert_eq!(message[14], slot as u8 + 1);
        assert_eq!(message[17], slot as u8);
        assert!(message.iter().skip(1).rev().skip(1).all(|b| *b < 0x80));
    }
}

#[test]
fn firmware_that_does_not_reply() {
    let mut bridge = bridge(false, true);
    let mut list = setlist(false, 1);
    list.global = Some(SETTINGS);
    let trace = deploy(list, &mut bridge, silent());
    assert_eq!(trace.lines[2], "global: no reply (timeout)\n");
    assert_eq!(trace.lines[3], "preset 0 \"P0\": no reply (timeout)\n");
    assert_eq!(trace.lines[4], "cleared 31 stale slot(s)\n");
}

#[test]
fn large_setlists_pause_after_each_preset() {
    let mut state = bridge(false, true);
    assert_eq!(deploy(setlist(false, 5), &mut state, silent()).pauses, vec![250; 5]);
    assert_eq!(deploy(setlist(false, 4), &mut state, silent()).pauses, Vec::<u64>::new());
}

#[test]
fn full_setlist_clears_nothing() {
    let mut bridge = bridge(false, true);
    let trace = deploy(setlist(false, 32), &mut bridge, silent());
    assert_eq!(trace.sent.len(), 32);
    assert_eq!(trace.lines.last().unwrap(), "done: deployed (32 presets)\n");
    assert!(!trace.lines.iter().any(|l| l.starts_with("cleared")));
}

#[test]
fn preset_that_could_not_be_encoded_is_left_out() {
    let mut bridge = bridge(false, true);
    let mut list = setlist(false, 3);
    list.presets[1].data = None;
    let trace = deploy(list, &mut bridge, silent());
    assert_eq!(trace.lines[2], "preset 0 \"P0\": no reply (timeout)\n");
    assert_eq!(trace.lines[3], "preset 2 \"P2\": no reply (timeout)\n");
    assert_eq!(trace.sent[1].0[17], 2);
    assert_eq!(trace.sent[2].0[17], 3);
}

#[test]
fn upload_message_bytes() {
    let mut list = setlist(false, 0);
    list.presets.push(PresetUpload {
        name: "x".to_string(),
        data: Some(vec![0x80, 0x01, 0xFF, 0x00, 0x00, 0x00, 0xC0, 0x90, 0x05]),
    });
    let uploads = plan_uploads(&list);
    assert_eq!(
        uploads[0].message,
        vec![
            0xF0, 0x7E, 0x7F, 0x0D, 0x36, 0x02, 0x10, 0x20, 0x30, 0x40, 0x01, 0x02, 0x03, 0x04, 0x01, 0x01, 0x00,
            0x00, 0x01, 0x00, 0x01, 0x00, 0x0B, 0x00, 0x45, 0x00, 0x01, 0x7F, 0x00, 0x00, 0x00, 0x40, 0x01, 0x10,
            0x05, 0xF7,
        ]
    );
    assert_eq!(
        uploads[1].message,
        vec![
            0xF0, 0x7E, 0x7F, 0x0D, 0x36, 0x02, 0x10, 0x20, 0x30, 0x40, 0x01, 0x02, 0x03, 0x04, 0x02, 0x01, 0x00,
            0x01, 0x01, 0x00, 0x01, 0x00, 0x00, 0x00, 0xF7,
        ]
    );
}

/// What the firmware reads from a message.
fn body_of(message: &[u8]) -> Vec<u8> {
    let mut out = [0u8; 300];
    let n = midi_controller::property_exchange::decode_mcoded7(&message[24..message.len() - 1], &mut out);
    out[..n].to_vec()
}

#[test]
fn firmware_reads_what_was_sent() {
    for n in [0usize, 1, 6, 7, 8, 13, 14, 15, 100, 262] {
        let data: Vec<u8> = (0..n).map(|i| (i * 37 + 91) as u8).collect();
        let mut list = setlist(false, 0);
        list.presets.push(PresetUpload { name: "x".to_string(), data: Some(data.clone()) });
        list.global = Some(SETTINGS);
        let uploads = plan_uploads(&list);
        assert_eq!(body_of(&uploads[1].message), data);
        let read: midi_controller::config::GlobalConfig = postcard::from_bytes(&body_of(&uploads[0].message)).unwrap();
        assert_eq!(read.din_enabled, SETTINGS.din_enabled);
        assert_eq!(read.din_to_usb_thru, SETTINGS.din_to_usb_thru);
        assert_eq!(read.usb_to_din_thru, SETTINGS.usb_to_din_thru);
        assert_eq!(read.usb_to_usb_thru, SETTINGS.usb_to_usb_thru);
        assert_eq!(read.midi_clock, SETTINGS.midi_clock);
        assert_eq!(read.bpm, SETTINGS.bpm);
        assert_eq!(read.exp1_min, SETTINGS.exp1_min);
        assert_eq!(read.exp1_max, SETTINGS.exp1_max);
        assert_eq!(read.exp2_min, SETTINGS.exp2_min);
        assert_eq!(read.exp2_max, SETTINGS.exp2_max);
    }
}

#[test]
fn presets_are_encoded() {
    let plain: midi_controller::config::Preset = Default::default();
    let mut named = plain.clone();
    named.name = "Hi".parse().unwrap();
    named.defaults.button_active.push(true).unwrap();
    let encoded = encode_presets(&vec![named, plain]);
    assert_eq!(encoded.len(), 2);
    assert_eq!(encoded[0].name, "Hi");
    assert_eq!(encoded[0].data, Some(vec![2, b'H', b'i', 0, 0, 0, 1, 1, 0, 0, 0, 0]));
    assert_eq!(encoded[1].name, "");
    assert_eq!(encoded[1].data, Some(vec![0; 9]));
}

#[test]
fn long_body_has_a_two_byte_length() {
    let mut list = setlist(false, 0);
    list.presets.push(PresetUpload { name: "x".to_string(), data: Some(vec![0x7F; 262]) });
    assert!(list.is_sendable());
    let uploads = plan_uploads(&list);
    let message = &uploads[0].message;
    assert_eq!(message.len(), 24 + 300 + 1);
    assert_eq!(message[22..24], [(300 % 128) as u8, (300 / 128) as u8]);
    assert_eq!(message[24], 0);
    assert_eq!(message[25], 0x7F);
}

#[test]
fn global_configuration_bytes() {
    let mut list = setlist(false, 0);
    list.global = Some(SETTINGS);
    let uploads = plan_uploads(&list);
    let message = &uploads[0].message;
    assert_eq!(message[14], 0x7F);
    assert_eq!(message[17], 0x7F);
    // 1 0 1 0 1, 120, 0, 3750 = a6 1d, 127, 65535 = ff ff 03, in groups of seven.
    let expected = [
        0x00, 0x01, 0x00, 0x01, 0x00, 0x01, 0x78, 0x00, 0x19, 0x26, 0x1D, 0x7F, 0x7F, 0x7F, 0x03,
    ];
    assert_eq!(message[22], expected.len() as u8);
    assert_eq!(message[24..24 + expected.len()], expected);
    assert_eq!(message[24 + expected.len()..], [0xF7]);
}

#[test]
fn different_settings_have_different_messages() {
    let message = |config: GlobalConfig| {
        let mut list = setlist(false, 0);
        list.global = Some(config);
        plan_uploads(&list).swap_remove(0).message
    };
    let mut other = SETTINGS;
    other.exp2_min = 128;
    assert_ne!(message(SETTINGS), message(other));
    other = SETTINGS;
    other.midi_clock = false;
    assert_ne!(message(SETTINGS), message(other));
}

#[test]
fn bodies_that_fit() {
    assert!(body_fits(&[]));
    assert!(body_fits(&[0; 262]));
    assert!(!body_fits(&[0; 263]));
    let mut list = setlist(false, 255);
    assert!(list.is_sendable());
    list.presets[7].data = Some(vec![0; 263]);
    assert!(!list.is_sendable());
    assert!(!setlist(false, 256).is_sendable());
}
