use pedalboard_bridge::audio::{
    Action, AudioConfig, AudioEngine, AudioInstanceState, AudioPlugin, AudioSnapshot,
    ExpressionTarget, PedalMapping, Progress, Task,
};
use pedalboard_bridge::modhost::Number;
use serde_yaml::Value;

fn number(x: f64) -> Number {
    Number { bits: x.to_bits() }
}

fn float(n: Number) -> f64 {
    f64::from_bits(n.bits)
}

fn text(v: &Value) -> String {
    v.as_str().unwrap().to_string()
}

fn optional_number(v: Option<&Value>) -> Option<Number> {
    v.and_then(|v| v.as_f64()).map(number)
}

fn items(v: &Value) -> Vec<Value> {
    v.as_sequence().unwrap().clone()
}

fn entries(v: Option<&Value>) -> Vec<(String, Value)> {
    match v {
        None => Vec::new(),
        Some(v) => v.as_mapping().unwrap().iter().map(|(k, v)| (text(k), v.clone())).collect(),
    }
}

fn plugin(v: &Value) -> AudioPlugin {
    AudioPlugin {
        id: v["id"].as_u64().unwrap() as u32,
        uri: text(&v["uri"]),
        model: v.get("model").map(text),
    }
}

fn state(v: &Value) -> AudioInstanceState {
    AudioInstanceState {
        bypassed: v.get("bypassed").and_then(|b| b.as_bool()),
        params: entries(v.get("params"))
            .iter()
            .map(|(k, v)| (k.clone(), number(v.as_f64().unwrap())))
            .collect(),
    }
}

fn target(v: &Value) -> ExpressionTarget {
    ExpressionTarget {
        instance: v["instance"].as_u64().unwrap() as u32,
        param: text(&v["param"]),
        min: optional_number(v.get("min")),
        max: optional_number(v.get("max")),
    }
}

fn snapshot(v: &Value) -> AudioSnapshot {
    AudioSnapshot {
        name: text(&v["name"]),
        state: entries(v.get("state")).iter().map(|(k, v)| (k.clone(), state(v))).collect(),
        expression: entries(v.get("expression")).iter().map(|(k, v)| (k.clone(), target(v))).collect(),
    }
}

fn pedal(v: &Value) -> PedalMapping {
    PedalMapping {
        name: text(&v["name"]),
        cc: v["cc"].as_u64().unwrap() as u8,
        channel: v.get("channel").and_then(|c| c.as_u64()).map(|c| c as u8),
    }
}

fn config(v: &Value) -> Option<AudioConfig> {
    v.get("plugins")?;
    Some(AudioConfig {
        plugins: items(&v["plugins"]).iter().map(plugin).collect(),
        connections: items(&v["connections"]).iter().map(|c| [text(&c[0]), text(&c[1])]).collect(),
        snapshots: items(&v["snapshots"]).iter().map(snapshot).collect(),
        expression: v.get("expression").map(|e| items(e).iter().map(pedal).collect()),
    })
}

fn load(yaml: &str) -> Result<AudioConfig, String> {
    let value: Value = serde_yaml::from_str(yaml).unwrap();
    AudioConfig::load_from_str(config(&value), Some(value.get("audio").and_then(config)))
}

fn sample_config() -> AudioConfig {
    load(
        r#"
plugins:
  - id: 0
    uri: "http://example.com/distortion"
  - id: 1
    uri: "http://example.com/amp-clean"
    model: "/models/clean.json"
  - id: 2
    uri: "http://example.com/amp-crunch"
    model: "/models/crunch.json"
  - id: 3
    uri: "http://example.com/reverb"
connections:
  - ["system:capture_2", "effect_0:in"]
  - ["effect_0:out", "effect_1:in"]
  - ["effect_0:out", "effect_2:in"]
  - ["effect_1:out", "effect_3:in"]
  - ["effect_2:out", "effect_3:in"]
  - ["effect_3:out", "system:playback_2"]
expression:
  - { name: "Exp1", cc: 7 }
  - { name: "Exp2", cc: 11 }
snapshots:
  - name: "Clean"
    state:
      "0": { bypassed: true }
      "1": { bypassed: false, params: { PREGAIN: 0.3, MASTER: 0.8 } }
      "2": { bypassed: true }
      "3": { bypassed: false }
    expression:
      Exp1: { instance: 1, param: "MASTER", min: 0.0, max: 1.0 }
      Exp2: { instance: 3, param: "decay_time", min: 0.5, max: 5.0 }
  - name: "Crunch"
    state:
      "0": { bypassed: false, params: { DRIVE: 0.6 } }
      "1": { bypassed: true }
      "2": { bypassed: false, params: { PREGAIN: 0.7, MASTER: 0.6 } }
      "3": { bypassed: true }
    expression:
      Exp1: { instance: 2, param: "PREGAIN", min: 0.3, max: 1.0 }
      Exp2: { instance: 0, param: "DRIVE", min: 0.0, max: 1.0 }
"#,
    )
    .unwrap()
}

fn entry<'a, T>(entries: &'a Vec<(String, T)>, key: &str) -> &'a T {
    &entries.iter().find(|e| e.0 == key).unwrap().1
}

fn describe(action: &Action) -> String {
    match action {
        Action::Pause { millis } => format!("pause {millis}"),
        Action::RemoveAll => "remove all".to_string(),
        Action::AddPlugin { uri, id } => format!("add {uri} {id}"),
        Action::ConnectPorts { from, to } => format!("connect {from} {to}"),
        Action::WriteBundle(bundle) => format!("write {}", bundle.dir),
        Action::BundleAdd { path } => format!("bundle_add {path}"),
        Action::PresetLoad { id, uri } => format!("preset_load {id} {uri}"),
        Action::Bypass { id, bypassed } => format!("bypass {id} {bypassed}"),
        Action::ParamSet { id, symbol, value } => format!("param_set {id} {symbol} {}", float(*value)),
        Action::RigLoaded => "rig loaded".to_string(),
        Action::Activate { name } => format!("activate {name}"),
    }
}

/// Performs a task, of which the step `failing` fails, and tells the steps and how it ended.
fn perform(engine: &mut AudioEngine, mut task: Task, failing: Option<usize>) -> (Vec<String>, Progress) {
    let mut done = Vec::new();
    loop {
        let described = match task.current() {
            Some(step) => describe(&step.action),
            None => return (done, Progress::Finished),
        };
        let succeeds = failing != Some(done.len());
        done.push(described);
        match engine.advance(&mut task, succeeds) {
            Progress::Continue => {}
            end => return (done, end),
        }
    }
}

fn switch(engine: &mut AudioEngine, name: &str) -> Vec<String> {
    let task = engine.switch_snapshot(name);
    perform(engine, task, None).0
}

#[test]
fn parse_yaml_config() {
    let config = sample_config();
    assert_eq!(config.plugins.len(), 4);
    assert_eq!(config.connections.len(), 6);
    assert_eq!(config.snapshots.len(), 2);
    assert_eq!(config.expression.as_ref().unwrap().len(), 2);
}

#[test]
fn parse_plugin_fields() {
    let config = sample_config();
    assert_eq!(config.plugins[0].id, 0);
    assert_eq!(config.plugins[0].uri, "http://example.com/distortion");
    assert!(config.plugins[0].model.is_none());
    assert_eq!(config.plugins[1].model.as_deref(), Some("/models/clean.json"));
}

#[test]
fn parse_snapshot_state() {
    let config = sample_config();
    let clean = &config.snapshots[0];
    assert_eq!(clean.name, "Clean");

    let inst0 = entry(&clean.state, "0");
    assert_eq!(inst0.bypassed, Some(true));
    assert!(inst0.params.is_empty());

    let inst1 = entry(&clean.state, "1");
    assert_eq!(inst1.bypassed, Some(false));
    assert_eq!(float(*entry(&inst1.params, "PREGAIN")), 0.3);
    assert_eq!(float(*entry(&inst1.params, "MASTER")), 0.8);
}

#[test]
fn parse_per_snapshot_expression() {
    let config = sample_config();

    // Clean: Exp1 → instance 1 MASTER
    let clean = &config.snapshots[0];
    let exp1 = entry(&clean.expression, "Exp1");
    assert_eq!(exp1.instance, 1);
    assert_eq!(exp1.param, "MASTER");
    assert_eq!(exp1.min.map(float), Some(0.0));
    assert_eq!(exp1.max.map(float), Some(1.0));

    // Crunch: Exp1 → instance 2 PREGAIN (different target!)
    let crunch = &config.snapshots[1];
    let exp1 = entry(&crunch.expression, "Exp1");
    assert_eq!(exp1.instance, 2);
    assert_eq!(exp1.param, "PREGAIN");
    assert_eq!(exp1.min.map(float), Some(0.3));
    assert_eq!(exp1.max.map(float), Some(1.0));
}

#[test]
fn parse_pedal_mapping() {
    let config = sample_config();
    let mappings = config.expression.unwrap();
    assert_eq!(mappings[0].name, "Exp1");
    assert_eq!(mappings[0].cc, 7);
    assert_eq!(mappings[1].name, "Exp2");
    assert_eq!(mappings[1].cc, 11);
}

#[test]
fn parse_setlist_with_audio() {
    let yaml = r#"
audio:
  plugins:
    - id: 0
      uri: "http://example.com/amp"
  connections:
    - ["system:capture_2", "effect_0:in"]
  snapshots:
    - name: "Default"
      state:
        "0": { params: { GAIN: 0.5 } }

presets:
  - name: "Song 1"
    audio_snapshot: "Default"
    buttons:
      A: { label: "Test", cc: 80, color: green }
"#;

    let config = load(yaml).unwrap();
    assert_eq!(config.plugins.len(), 1);
    assert_eq!(config.snapshots[0].name, "Default");
}

#[test]
fn audio_engine_new() {
    let config = sample_config();
    let engine = AudioEngine::new(config);
    assert!(!engine.is_rig_loaded());
    assert!(engine.active_snapshot_name().is_none());
}

#[test]
fn model_bundle_generation() {
    let bundle_path = "/tmp/pedalboard-test-bundle.lv2";

    let bundle = AudioEngine::create_model_bundle(
        bundle_path,
        5,
        "http://aidadsp.cc/plugins/aidadsp-bundle/rt-neural-loader",
        "/etc/pedalboard/models/test.json",
    );
    assert_eq!(bundle.dir, bundle_path);

    assert_eq!(bundle.manifest_path, format!("{bundle_path}/manifest.ttl"));
    let manifest = bundle.manifest;
    assert!(manifest.contains("http://pedalboard.local/model#5"));
    assert!(manifest.contains("pset:Preset"));
    assert!(manifest.contains("rt-neural-loader"));

    assert_eq!(bundle.presets_path, format!("{bundle_path}/presets.ttl"));
    let presets = bundle.presets;
    assert!(presets.contains("/etc/pedalboard/models/test.json"));
    assert!(presets.contains("rt-neural-loader#json"));
}

#[test]
fn model_bundle_text() {
    let bundle = AudioEngine::create_model_bundle("/b", 12, "urn:amp", "/m.json");
    assert_eq!(
        bundle.manifest,
        "@prefix lv2: <http://lv2plug.in/ns/lv2core#> .
@prefix pset: <http://lv2plug.in/ns/ext/presets#> .
@prefix rdfs: <http://www.w3.org/2000/01/rdf-schema#> .

<http://pedalboard.local/model#12>
    a pset:Preset ;
    lv2:appliesTo <urn:amp> ;
    rdfs:seeAlso <presets.ttl> .
"
    );
    assert_eq!(
        bundle.presets,
        "@prefix lv2: <http://lv2plug.in/ns/lv2core#> .
@prefix pset: <http://lv2plug.in/ns/ext/presets#> .
@prefix state: <http://lv2plug.in/ns/ext/state#> .
@prefix rdfs: <http://www.w3.org/2000/01/rdf-schema#> .

<http://pedalboard.local/model#12>
    a pset:Preset ;
    rdfs:label \"model-12\" ;
    lv2:appliesTo <urn:amp> ;
    state:state [
        <urn:amp#json> </m.json>
    ] .
"
    );
}

/// The value that a pedal at `value` gives to a parameter with this range.
fn scaled(min: f64, max: f64, value: u8) -> f64 {
    let mut config = sample_config();
    let exp1 = &mut config.snapshots[0].expression[0];
    assert_eq!(exp1.0, "Exp1");
    exp1.1.min = Some(number(min));
    exp1.1.max = Some(number(max));
    let mut engine = AudioEngine::new(config);
    switch(&mut engine, "Clean");
    let route = engine.handle_cc(1, 7, value).unwrap();
    let (min, max) = (float(route.min), float(route.max));
    min + route.value as f64 / 127.0 * (max - min)
}

#[test]
fn expression_cc_scaling() {
    let min = 0.5_f64;
    let max = 2.0_f64;

    // CC 0 → min
    let value = scaled(min, max, 0);
    assert!((value - 0.5).abs() < 0.001);

    // CC 127 → max
    let value = scaled(min, max, 127);
    assert!((value - 2.0).abs() < 0.001);

    // CC 64 → midpoint
    let value = scaled(min, max, 64);
    assert!((value - 1.256).abs() < 0.01);
}

#[test]
fn rig_is_loaded_step_by_step() {
    let mut engine = AudioEngine::new(sample_config());
    let task = engine.load_rig();
    let (steps, end) = perform(&mut engine, task, None);
    assert_eq!(
        steps,
        vec![
            "remove all",
            "pause 100",
            "add http://example.com/distortion 0",
            "add http://example.com/amp-clean 1",
            "add http://example.com/amp-crunch 2",
            "add http://example.com/reverb 3",
            "pause 200",
            "connect system:capture_2 effect_0:in",
            "connect effect_0:out effect_1:in",
            "connect effect_0:out effect_2:in",
            "connect effect_1:out effect_3:in",
            "connect effect_2:out effect_3:in",
            "connect effect_3:out system:playback_2",
            "write /tmp/pedalboard-model-1.lv2",
            "bundle_add /tmp/pedalboard-model-1.lv2",
            "preset_load 1 http://pedalboard.local/model#1",
            "write /tmp/pedalboard-model-2.lv2",
            "bundle_add /tmp/pedalboard-model-2.lv2",
            "preset_load 2 http://pedalboard.local/model#2",
            "bypass 0 true",
            "bypass 1 true",
            "bypass 2 true",
            "bypass 3 true",
            "rig loaded",
        ]
    );
    assert_eq!(end, Progress::Finished);
    assert!(engine.is_rig_loaded());
    assert_eq!(engine.active_snapshot_name(), None);
}

#[test]
fn failed_connection_is_tolerated() {
    let mut engine = AudioEngine::new(sample_config());
    let task = engine.load_rig();
    let (steps, end) = perform(&mut engine, task, Some(8));
    assert_eq!(steps[8], "connect effect_0:out effect_1:in");
    assert_eq!(steps.len(), 24);
    assert_eq!(end, Progress::Finished);
    assert!(engine.is_rig_loaded());
}

#[test]
fn failed_plugin_ends_the_loading() {
    let mut engine = AudioEngine::new(sample_config());
    let task = engine.load_rig();
    let (steps, end) = perform(&mut engine, task, Some(3));
    assert_eq!(steps.len(), 4);
    assert_eq!(end, Progress::Failed);
    assert!(!engine.is_rig_loaded());
}

#[test]
fn first_switch_loads_the_rig() {
    let mut engine = AudioEngine::new(sample_config());
    let steps = switch(&mut engine, "Clean");
    assert_eq!(steps.len(), 24 + 7);
    assert_eq!(
        steps[24..],
        [
            "bypass 0 true",
            "bypass 1 false",
            "param_set 1 PREGAIN 0.3",
            "param_set 1 MASTER 0.8",
            "bypass 2 true",
            "bypass 3 false",
            "activate Clean",
        ]
    );
    assert_eq!(engine.active_snapshot_name(), Some("Clean"));
}

#[test]
fn later_switch_is_instant() {
    let mut engine = AudioEngine::new(sample_config());
    switch(&mut engine, "Clean");
    let steps = switch(&mut engine, "Crunch");
    assert_eq!(
        steps,
        vec![
            "bypass 0 false",
            "param_set 0 DRIVE 0.6",
            "bypass 1 true",
            "bypass 2 false",
            "param_set 2 PREGAIN 0.7",
            "param_set 2 MASTER 0.6",
            "bypass 3 true",
            "activate Crunch",
        ]
    );
    assert_eq!(engine.active_snapshot_name(), Some("Crunch"));
}

#[test]
fn needless_switch_takes_nothing() {
    let mut engine = AudioEngine::new(sample_config());
    switch(&mut engine, "Clean");
    assert!(switch(&mut engine, "Clean").is_empty());
    assert!(switch(&mut engine, "Lead").is_empty());
    assert_eq!(engine.active_snapshot_name(), Some("Clean"));
}

#[test]
fn unknown_snapshot_still_loads_the_rig() {
    let mut engine = AudioEngine::new(sample_config());
    assert_eq!(switch(&mut engine, "Lead").len(), 24);
    assert!(engine.is_rig_loaded());
    assert_eq!(engine.active_snapshot_name(), None);
}

#[test]
fn failed_switch_keeps_the_snapshot() {
    let mut engine = AudioEngine::new(sample_config());
    switch(&mut engine, "Clean");
    let task = engine.switch_snapshot("Crunch");
    let (steps, end) = perform(&mut engine, task, Some(1));
    assert_eq!(steps.len(), 2);
    assert_eq!(end, Progress::Failed);
    assert_eq!(engine.active_snapshot_name(), Some("Clean"));
}

#[test]
fn switch_by_index() {
    let mut engine = AudioEngine::new(sample_config());
    let task = engine.switch_snapshot_by_index(1);
    perform(&mut engine, task, None);
    assert_eq!(engine.active_snapshot_name(), Some("Crunch"));
    assert!(engine.switch_snapshot_by_index(2).current().is_none());
    let fresh = AudioEngine::new(sample_config());
    assert!(fresh.switch_snapshot_by_index(7).current().is_none());
}

#[test]
fn instance_without_bypass_is_active() {
    let mut config = sample_config();
    config.snapshots[0].state = vec![
        ("2".to_string(), AudioInstanceState { bypassed: None, params: vec![] }),
        ("x".to_string(), AudioInstanceState { bypassed: Some(false), params: vec![] }),
        ("-1".to_string(), AudioInstanceState { bypassed: Some(false), params: vec![] }),
        ("+3".to_string(), AudioInstanceState { bypassed: Some(true), params: vec![] }),
    ];
    let mut engine = AudioEngine::new(config);
    let steps = switch(&mut engine, "Clean");
    assert_eq!(steps[24..], ["bypass 2 false", "bypass 3 true", "activate Clean"]);
}

/// What mod-host was told last of the bypass of an instance and of a parameter.
fn last_told(steps: &[String], what: &str) -> Option<String> {
    let prefix = format!("{what} ");
    steps.iter().rev().find(|s| s.starts_with(&prefix)).map(|s| s[prefix.len()..].to_string())
}

#[test]
fn switch_sets_the_tone() {
    let mut config = sample_config();
    config.snapshots[1].state.remove(3);
    let mut engine = AudioEngine::new(config);
    let mut steps = switch(&mut engine, "Crunch");
    assert_eq!(last_told(&steps, "bypass 0").as_deref(), Some("false"));
    assert_eq!(last_told(&steps, "bypass 1").as_deref(), Some("true"));
    assert_eq!(last_told(&steps, "bypass 2").as_deref(), Some("false"));
    assert_eq!(last_told(&steps, "param_set 2 PREGAIN").as_deref(), Some("0.7"));
    // The snapshot does not mention the reverb, so it stays as the loading of the rig left it.
    assert_eq!(last_told(&steps, "bypass 3").as_deref(), Some("true"));

    steps.extend(switch(&mut engine, "Clean"));
    assert_eq!(last_told(&steps, "bypass 3").as_deref(), Some("false"));
    assert_eq!(last_told(&steps, "param_set 1 MASTER").as_deref(), Some("0.8"));
    steps.extend(switch(&mut engine, "Crunch"));
    assert_eq!(last_told(&steps, "bypass 3").as_deref(), Some("false"));
    assert_eq!(last_told(&steps, "param_set 1 MASTER").as_deref(), Some("0.8"));
    assert_eq!(last_told(&steps, "bypass 1").as_deref(), Some("true"));
}

#[test]
fn cc_goes_to_the_target_of_the_active_snapshot() {
    let mut engine = AudioEngine::new(sample_config());
    assert!(engine.handle_cc(1, 7, 64).is_none());
    switch(&mut engine, "Clean");
    let route = engine.handle_cc(1, 11, 64).unwrap();
    assert_eq!(route.instance, 3);
    assert_eq!(route.param, "decay_time");
    assert_eq!(float(route.min), 0.5);
    assert_eq!(float(route.max), 5.0);
    assert_eq!(route.value, 64);
    switch(&mut engine, "Crunch");
    let route = engine.handle_cc(1, 11, 64).unwrap();
    assert_eq!(route.instance, 0);
    assert_eq!(route.param, "DRIVE");
    assert!(engine.handle_cc(1, 12, 64).is_none());
}

#[test]
fn cc_range_defaults_to_the_unit_interval() {
    let mut config = sample_config();
    config.snapshots[0].expression[0].1.min = None;
    config.snapshots[0].expression[0].1.max = None;
    let mut engine = AudioEngine::new(config);
    switch(&mut engine, "Clean");
    let route = engine.handle_cc(1, 7, 127).unwrap();
    assert_eq!(float(route.min), 0.0);
    assert_eq!(float(route.max), 1.0);
}

#[test]
fn pedal_with_a_channel_listens_to_that_channel_only() {
    let mut config = sample_config();
    config.expression.as_mut().unwrap()[0].channel = Some(3);
    let mut engine = AudioEngine::new(config);
    switch(&mut engine, "Clean");
    assert!(engine.handle_cc(1, 7, 10).is_none());
    assert_eq!(engine.handle_cc(3, 7, 10).unwrap().param, "MASTER");
    assert_eq!(engine.handle_cc(9, 11, 10).unwrap().param, "decay_time");
}

#[test]
fn cc_without_an_assignment_goes_nowhere() {
    let mut config = sample_config();
    config.snapshots[0].expression.clear();
    let mut engine = AudioEngine::new(config);
    switch(&mut engine, "Clean");
    assert!(engine.handle_cc(1, 7, 10).is_none());
    let mut config = sample_config();
    config.expression = None;
    let mut engine = AudioEngine::new(config);
    switch(&mut engine, "Clean");
    assert!(engine.handle_cc(1, 7, 10).is_none());
}

#[test]
fn config_choice() {
    let own = sample_config();
    let embedded = load("audio: {plugins: [], connections: [], snapshots: []}").unwrap();
    let chosen = AudioConfig::load("/etc/rig.yaml", Some(own), Some(Some(embedded))).unwrap();
    assert_eq!(chosen.plugins.len(), 4);
    assert_eq!(
        AudioConfig::load("/etc/rig.yaml", None, Some(None)).unwrap_err(),
        "Failed to parse audio config from /etc/rig.yaml"
    );
    assert_eq!(load("presets: []").unwrap_err(), "Failed to parse audio config from string");
    assert_eq!(AudioConfig::load_from_str(None, None).unwrap_err(), "Failed to parse audio config from string");
}
