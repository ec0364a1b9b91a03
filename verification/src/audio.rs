//! The audio rig: its configuration, and the steps that load it and switch its snapshots.
//!
//! The engine plans; the caller performs the steps against mod-host and reports how each ended.
use vstd::prelude::*;

use crate::keyed;
use crate::modhost::Number;
use crate::text;

verus! {

/// A plugin instance in the audio rig.
#[derive(Debug, Clone)]
pub struct AudioPlugin {
    /// mod-host instance ID.
    pub id: u32,
    /// LV2 plugin URI.
    pub uri: String,
    /// AIDA-X model file path (loaded via preset_load at boot).
    pub model: Option<String>,
}

/// The model of an [`AudioPlugin`].
pub struct PluginView {
    pub id: u32,
    pub uri: Seq<char>,
    pub model: Option<Seq<char>>,
}

impl DeepView for AudioPlugin {
    type V = PluginView;

    open spec fn deep_view(&self) -> PluginView {
        PluginView { id: self.id, uri: self.uri@, model: self.model.deep_view() }
    }
}

/// State of a single plugin instance within a snapshot.
#[derive(Debug, Clone)]
pub struct AudioInstanceState {
    /// Whether this instance is bypassed. Default: false (active).
    pub bypassed: Option<bool>,
    /// Parameter values to set, in the order in which they are to be set.
    pub params: Vec<(String, Number)>,
}

/// The model of an [`AudioInstanceState`].
pub struct StateView {
    pub bypassed: Option<bool>,
    pub params: Seq<(Seq<char>, Number)>,
}

impl DeepView for AudioInstanceState {
    type V = StateView;

    open spec fn deep_view(&self) -> StateView {
        StateView { bypassed: self.bypassed, params: self.params.deep_view() }
    }
}

/// A plugin parameter controlled by an expression pedal.
#[derive(Debug, Clone)]
pub struct ExpressionTarget {
    /// mod-host instance ID.
    pub instance: u32,
    /// Port symbol name.
    pub param: String,
    /// Minimum value (at CC=0). Default: 0.0.
    pub min: Option<Number>,
    /// Maximum value (at CC=127). Default: 1.0.
    pub max: Option<Number>,
}

/// The model of an [`ExpressionTarget`].
pub struct TargetView {
    pub instance: u32,
    pub param: Seq<char>,
    pub min: Option<Number>,
    pub max: Option<Number>,
}

impl DeepView for ExpressionTarget {
    type V = TargetView;

    open spec fn deep_view(&self) -> TargetView {
        TargetView {
            instance: self.instance,
            param: self.param@,
            min: self.min,
            max: self.max,
        }
    }
}

/// A named audio snapshot: bypass states and params for all instances.
#[derive(Debug, Clone)]
pub struct AudioSnapshot {
    /// Snapshot name (referenced by presets/buttons).
    pub name: String,
    /// Per-instance state. Key is the instance ID as text.
    pub state: Vec<(String, AudioInstanceState)>,
    /// Per-snapshot expression pedal assignments.
    /// Key is the pedal name ("Exp1", "Exp2"), value is the target parameter.
    pub expression: Vec<(String, ExpressionTarget)>,
}

/// The model of an [`AudioSnapshot`].
pub struct SnapshotView {
    pub name: Seq<char>,
    pub state: Seq<(Seq<char>, StateView)>,
    pub expression: Seq<(Seq<char>, TargetView)>,
}

impl DeepView for AudioSnapshot {
    type V = SnapshotView;

    open spec fn deep_view(&self) -> SnapshotView {
        SnapshotView {
            name: self.name@,
            state: self.state.deep_view(),
            expression: self.expression.deep_view(),
        }
    }
}

/// Maps a physical expression pedal to its MIDI CC number.
#[derive(Debug, Clone)]
pub struct PedalMapping {
    /// Pedal name (e.g., "Exp1"). Referenced in snapshot expression assignments.
    pub name: String,
    /// MIDI CC number this pedal sends.
    pub cc: u8,
    /// MIDI channel (1-16). If omitted, matches any channel.
    pub channel: Option<u8>,
}

/// The model of a [`PedalMapping`].
pub struct PedalView {
    pub name: Seq<char>,
    pub cc: u8,
    pub channel: Option<u8>,
}

impl DeepView for PedalMapping {
    type V = PedalView;

    open spec fn deep_view(&self) -> PedalView {
        PedalView { name: self.name@, cc: self.cc, channel: self.channel }
    }
}

/// Top-level audio rig configuration.
#[derive(Debug, Clone)]
pub struct AudioConfig {
    /// Plugin instances to load at boot.
    pub plugins: Vec<AudioPlugin>,
    /// JACK connections [source, destination].
    pub connections: Vec<[String; 2]>,
    /// Named snapshots for instant tone switching.
    pub snapshots: Vec<AudioSnapshot>,
    /// Physical pedal to CC mapping (which CC number each pedal sends).
    pub expression: Option<Vec<PedalMapping>>,
}

/// The model of an [`AudioConfig`].
pub struct ConfigView {
    pub plugins: Seq<PluginView>,
    pub connections: Seq<Seq<Seq<char>>>,
    pub snapshots: Seq<SnapshotView>,
    pub expression: Option<Seq<PedalView>>,
}

impl DeepView for AudioConfig {
    type V = ConfigView;

    open spec fn deep_view(&self) -> ConfigView {
        ConfigView {
            plugins: self.plugins.deep_view(),
            connections: self.connections.deep_view(),
            snapshots: self.snapshots.deep_view(),
            expression: self.expression.deep_view(),
        }
    }
}

impl SnapshotView {
    /// No instance, parameter or pedal is given twice.
    pub open spec fn wf(self) -> bool {
        &&& keyed::distinct_keys(self.state)
        &&& keyed::distinct_keys(self.expression)
        &&& forall|i: int|
            0 <= i < self.state.len() ==> keyed::distinct_keys((#[trigger] self.state[i]).1.params)
    }
}

impl ConfigView {
    /// The snapshots are well formed.
    pub open spec fn wf(self) -> bool {
        forall|i: int| 0 <= i < self.snapshots.len() ==> (#[trigger] self.snapshots[i]).wf()
    }
}

/// The configuration that a text holds, given what it reads as: a configuration on its own, or
/// else a setlist with an audio section.
pub open spec fn chosen_config<T>(standalone: Option<T>, setlist: Option<Option<T>>) -> Option<T> {
    match (standalone, setlist) {
        (Some(config), _) => Some(config),
        (None, Some(Some(config))) => Some(config),
        _ => None,
    }
}

impl AudioConfig {
    /// The audio configuration of the file at `path`. `standalone` is what the file reads as when
    /// taken for an audio configuration, `setlist` when taken for a setlist, whose audio section
    /// may be missing.
    pub fn load(
        path: &str,
        standalone: Option<AudioConfig>,
        setlist: Option<Option<AudioConfig>>,
    ) -> (r: Result<AudioConfig, String>)
        ensures
            match chosen_config(standalone, setlist) {
                Some(config) => r == Ok::<AudioConfig, String>(config),
                None => r matches Err(e) && e@ == "Failed to parse audio config from "@ + path@,
            },
    {
        match (standalone, setlist) {
            (Some(config), _) => Ok(config),
            (None, Some(Some(config))) => Ok(config),
            _ => Err("Failed to parse audio config from ".to_owned().concat(path)),
        }
    }

    /// The audio configuration of a text, as with [`AudioConfig::load`].
    pub fn load_from_str(
        standalone: Option<AudioConfig>,
        setlist: Option<Option<AudioConfig>>,
    ) -> (r: Result<AudioConfig, String>)
        ensures
            match chosen_config(standalone, setlist) {
                Some(config) => r == Ok::<AudioConfig, String>(config),
                None => r matches Err(e) && e@ == "Failed to parse audio config from string"@,
            },
    {
        match (standalone, setlist) {
            (Some(config), _) => Ok(config),
            (None, Some(Some(config))) => Ok(config),
            _ => Err("Failed to parse audio config from string".to_owned()),
        }
    }
}

/// The first lines of a Turtle file about presets.
pub open spec fn preset_prefixes() -> Seq<char> {
    "@prefix lv2: <http://lv2plug.in/ns/lv2core#> .\n@prefix pset: <http://lv2plug.in/ns/ext/presets#> .\n"@
}

/// The line that declares the `rdfs` prefix, and the blank line after it.
pub open spec fn rdfs_prefix() -> Seq<char> {
    "@prefix rdfs: <http://www.w3.org/2000/01/rdf-schema#> .\n\n"@
}

/// The URI of the preset that loads the model of an instance.
pub open spec fn model_preset_uri(instance_id: u32) -> Seq<char> {
    "http://pedalboard.local/model#"@ + text::decimal(instance_id as nat)
}

/// Where the bundle with the model of an instance is put.
pub open spec fn model_bundle_path(instance_id: u32) -> Seq<char> {
    "/tmp/pedalboard-model-"@ + text::decimal(instance_id as nat) + ".lv2"@
}

/// The manifest of the bundle.
pub open spec fn bundle_manifest(instance_id: u32, plugin_uri: Seq<char>) -> Seq<char> {
    preset_prefixes() + rdfs_prefix() + "<"@ + model_preset_uri(instance_id)
        + ">\n    a pset:Preset ;\n    lv2:appliesTo <"@ + plugin_uri
        + "> ;\n    rdfs:seeAlso <presets.ttl> .\n"@
}

/// The preset file of the bundle.
pub open spec fn bundle_presets(
    instance_id: u32,
    plugin_uri: Seq<char>,
    model_path: Seq<char>,
) -> Seq<char> {
    preset_prefixes() + "@prefix state: <http://lv2plug.in/ns/ext/state#> .\n"@ + rdfs_prefix()
        + "<"@ + model_preset_uri(instance_id) + ">\n    a pset:Preset ;\n    rdfs:label \"model-"@
        + text::decimal(instance_id as nat) + "\" ;\n    lv2:appliesTo <"@ + plugin_uri
        + "> ;\n    state:state [\n        <"@ + plugin_uri + "#json> <"@ + model_path
        + ">\n    ] .\n"@
}

/// A minimal LV2 preset bundle: its directory, and the two files in it.
#[derive(Debug)]
pub struct ModelBundle {
    pub dir: String,
    pub manifest_path: String,
    pub manifest: String,
    pub presets_path: String,
    pub presets: String,
}

/// The model of a [`ModelBundle`].
pub struct BundleView {
    pub dir: Seq<char>,
    pub manifest_path: Seq<char>,
    pub manifest: Seq<char>,
    pub presets_path: Seq<char>,
    pub presets: Seq<char>,
}

impl DeepView for ModelBundle {
    type V = BundleView;

    open spec fn deep_view(&self) -> BundleView {
        BundleView {
            dir: self.dir@,
            manifest_path: self.manifest_path@,
            manifest: self.manifest@,
            presets_path: self.presets_path@,
            presets: self.presets@,
        }
    }
}

/// The bundle that loads a model into an instance.
pub open spec fn model_bundle(
    bundle_path: Seq<char>,
    instance_id: u32,
    plugin_uri: Seq<char>,
    model_path: Seq<char>,
) -> BundleView {
    BundleView {
        dir: bundle_path,
        manifest_path: bundle_path + "/manifest.ttl"@,
        manifest: bundle_manifest(instance_id, plugin_uri),
        presets_path: bundle_path + "/presets.ttl"@,
        presets: bundle_presets(instance_id, plugin_uri, model_path),
    }
}

fn model_uri(instance_id: u32) -> (r: String)
    ensures
        r@ == model_preset_uri(instance_id),
{
    let mut out = "http://pedalboard.local/model#".to_owned();
    text::push_decimal(&mut out, instance_id as u64);
    out
}

fn model_path(instance_id: u32) -> (r: String)
    ensures
        r@ == model_bundle_path(instance_id),
{
    let mut out = "/tmp/pedalboard-model-".to_owned();
    text::push_decimal(&mut out, instance_id as u64);
    out.append(".lv2");
    out
}

fn push_preset_prefixes(out: &mut String)
    ensures
        final(out)@ == old(out)@ + preset_prefixes(),
{
    out.append(
        "@prefix lv2: <http://lv2plug.in/ns/lv2core#> .\n@prefix pset: <http://lv2plug.in/ns/ext/presets#> .\n",
    );
}

fn push_rdfs_prefix(out: &mut String)
    ensures
        final(out)@ == old(out)@ + rdfs_prefix(),
{
    out.append("@prefix rdfs: <http://www.w3.org/2000/01/rdf-schema#> .\n\n");
}

/// Something to do for the rig.
#[derive(Debug)]
pub enum Action {
    /// Wait.
    Pause { millis: u64 },
    /// Remove all plugin instances.
    RemoveAll,
    /// Add an instance of a plugin.
    AddPlugin { uri: String, id: u32 },
    /// Connect two JACK ports.
    ConnectPorts { from: String, to: String },
    /// Write a bundle to the disk.
    WriteBundle(ModelBundle),
    /// Register a bundle.
    BundleAdd { path: String },
    /// Load a preset onto an instance.
    PresetLoad { id: u32, uri: String },
    /// Bypass an instance, or put it back into the signal path.
    Bypass { id: u32, bypassed: bool },
    /// Set a parameter of an instance.
    ParamSet { id: u32, symbol: String, value: Number },
    /// Nothing to perform: from here on the rig counts as loaded.
    RigLoaded,
    /// Nothing to perform: from here on this snapshot is the active one.
    Activate { name: String },
}

/// The model of an [`Action`].
pub enum ActionView {
    Pause { millis: u64 },
    RemoveAll,
    AddPlugin { uri: Seq<char>, id: u32 },
    ConnectPorts { from: Seq<char>, to: Seq<char> },
    WriteBundle(BundleView),
    BundleAdd { path: Seq<char> },
    PresetLoad { id: u32, uri: Seq<char> },
    Bypass { id: u32, bypassed: bool },
    ParamSet { id: u32, symbol: Seq<char>, value: Number },
    RigLoaded,
    Activate { name: Seq<char> },
}

impl DeepView for Action {
    type V = ActionView;

    open spec fn deep_view(&self) -> ActionView {
        match self {
            Action::Pause { millis } => ActionView::Pause { millis: *millis },
            Action::RemoveAll => ActionView::RemoveAll,
            Action::AddPlugin { uri, id } => ActionView::AddPlugin { uri: uri@, id: *id },
            Action::ConnectPorts { from, to } => ActionView::ConnectPorts { from: from@, to: to@ },
            Action::WriteBundle(bundle) => ActionView::WriteBundle(bundle.deep_view()),
            Action::BundleAdd { path } => ActionView::BundleAdd { path: path@ },
            Action::PresetLoad { id, uri } => ActionView::PresetLoad { id: *id, uri: uri@ },
            Action::Bypass { id, bypassed } => ActionView::Bypass { id: *id, bypassed: *bypassed },
            Action::ParamSet { id, symbol, value } => ActionView::ParamSet {
                id: *id,
                symbol: symbol@,
                value: *value,
            },
            Action::RigLoaded => ActionView::RigLoaded,
            Action::Activate { name } => ActionView::Activate { name: name@ },
        }
    }
}

/// An action, and whether the work goes on when it fails.
#[derive(Debug)]
pub struct Step {
    pub action: Action,
    pub tolerated: bool,
}

/// The model of a [`Step`].
pub struct StepView {
    pub action: ActionView,
    pub tolerated: bool,
}

impl DeepView for Step {
    type V = StepView;

    open spec fn deep_view(&self) -> StepView {
        StepView { action: self.action.deep_view(), tolerated: self.tolerated }
    }
}

/// A step whose failure ends the work.
pub open spec fn must(action: ActionView) -> StepView {
    StepView { action, tolerated: false }
}

/// The steps that add the plugins.
pub open spec fn add_steps(plugins: Seq<PluginView>) -> Seq<StepView> {
    Seq::new(
        plugins.len(),
        |i: int| must(ActionView::AddPlugin { uri: plugins[i].uri, id: plugins[i].id }),
    )
}

/// The steps that connect the ports. A connection that fails does not stop the others.
pub open spec fn connect_steps(connections: Seq<Seq<Seq<char>>>) -> Seq<StepView> {
    Seq::new(
        connections.len(),
        |i: int|
            StepView {
                action: ActionView::ConnectPorts {
                    from: connections[i][0],
                    to: connections[i][1],
                },
                tolerated: true,
            },
    )
}

/// The steps that load the model of one plugin, where it has one.
pub open spec fn plugin_model_steps(plugin: PluginView) -> Seq<StepView> {
    match plugin.model {
        None => Seq::empty(),
        Some(model) => {
            let path = model_bundle_path(plugin.id);
            seq![
                must(ActionView::WriteBundle(model_bundle(path, plugin.id, plugin.uri, model))),
                must(ActionView::BundleAdd { path }),
                must(ActionView::PresetLoad { id: plugin.id, uri: model_preset_uri(plugin.id) }),
            ]
        },
    }
}

/// The steps that load the models.
pub open spec fn model_steps(plugins: Seq<PluginView>) -> Seq<StepView>
    decreases plugins.len(),
{
    if plugins.len() == 0 {
        Seq::empty()
    } else {
        model_steps(plugins.drop_last()) + plugin_model_steps(plugins.last())
    }
}

/// The steps that bypass every plugin.
pub open spec fn bypass_steps(plugins: Seq<PluginView>) -> Seq<StepView> {
    Seq::new(
        plugins.len(),
        |i: int| must(ActionView::Bypass { id: plugins[i].id, bypassed: true }),
    )
}

/// What loading the rig takes: remove what is there, add all plugins, let them register their
/// ports, make all connections, load the models, bypass everything.
pub open spec fn rig_plan(config: ConfigView) -> Seq<StepView> {
    seq![must(ActionView::RemoveAll), must(ActionView::Pause { millis: 100 })] + add_steps(
        config.plugins,
    ) + seq![must(ActionView::Pause { millis: 200 })] + connect_steps(config.connections)
        + model_steps(config.plugins) + bypass_steps(config.plugins) + seq![
        must(ActionView::RigLoaded),
    ]
}

/// The position of the first snapshot called `name`, from `i` on.
pub open spec fn snapshot_position(
    snapshots: Seq<SnapshotView>,
    name: Seq<char>,
    i: int,
) -> int
    decreases snapshots.len() - i,
{
    if 0 <= i < snapshots.len() && snapshots[i].name != name {
        snapshot_position(snapshots, name, i + 1)
    } else {
        i
    }
}

/// The snapshot called `name`: the first of that name.
pub open spec fn snapshot_named(
    snapshots: Seq<SnapshotView>,
    name: Seq<char>,
) -> Option<SnapshotView> {
    let at = snapshot_position(snapshots, name, 0);
    if at < snapshots.len() {
        Some(snapshots[at])
    } else {
        None
    }
}

/// The steps that set parameters.
pub open spec fn param_steps(id: u32, params: Seq<(Seq<char>, Number)>) -> Seq<StepView> {
    Seq::new(
        params.len(),
        |i: int| must(ActionView::ParamSet { id, symbol: params[i].0, value: params[i].1 }),
    )
}

/// The steps for one entry of a snapshot. A key that is no instance ID is passed over; an instance
/// is active unless the entry says that it is bypassed.
pub open spec fn entry_steps(key: Seq<char>, state: StateView) -> Seq<StepView> {
    match text::unsigned_number(key, u32::MAX as nat) {
        None => Seq::empty(),
        Some(n) => seq![
            must(
                ActionView::Bypass {
                    id: n as u32,
                    bypassed: match state.bypassed {
                        Some(b) => b,
                        None => false,
                    },
                },
            ),
        ] + param_steps(n as u32, state.params),
    }
}

/// The steps for the entries of a snapshot, in order.
pub open spec fn state_steps(state: Seq<(Seq<char>, StateView)>) -> Seq<StepView>
    decreases state.len(),
{
    if state.len() == 0 {
        Seq::empty()
    } else {
        state_steps(state.drop_last()) + entry_steps(state.last().0, state.last().1)
    }
}

/// What switching to a snapshot takes once the rig is loaded.
pub open spec fn snapshot_plan(snapshot: SnapshotView) -> Seq<StepView> {
    state_steps(snapshot.state).push(must(ActionView::Activate { name: snapshot.name }))
}

/// Work in progress: steps, of which the first `done` are behind us.
#[derive(Debug)]
pub struct Task {
    steps: Vec<Step>,
    done: usize,
}

/// The model of a [`Task`].
pub struct TaskView {
    pub steps: Seq<StepView>,
    pub done: int,
}

impl View for Task {
    type V = TaskView;

    closed spec fn view(&self) -> TaskView {
        TaskView { steps: self.steps.deep_view(), done: self.done as int }
    }
}

/// How the work stands after a step.
#[derive(Debug, Clone, Copy, PartialEq, Eq, Structural)]
pub enum Progress {
    /// There is a next step.
    Continue,
    /// All steps are done.
    Finished,
    /// The step failed, and that ends the work.
    Failed,
}

impl Task {
    /// The step to perform now, or none when all is done.
    pub fn current(&self) -> (r: Option<&Step>)
        ensures
            match r {
                Some(step) => 0 <= self@.done < self@.steps.len() && step.deep_view()
                    == self@.steps[self@.done],
                None => self@.done >= self@.steps.len(),
            },
    {
        if self.done < self.steps.len() {
            Some(&self.steps[self.done])
        } else {
            None
        }
    }
}

/// The audio engine: manages the rig's lifecycle and the switching of snapshots.
#[derive(Debug)]
pub struct AudioEngine {
    pub config: AudioConfig,
    active_snapshot: Option<String>,
    rig_loaded: bool,
}

/// The model of an [`AudioEngine`].
pub struct EngineView {
    pub config: ConfigView,
    pub active: Option<Seq<char>>,
    pub rig_loaded: bool,
}

impl View for AudioEngine {
    type V = EngineView;

    closed spec fn view(&self) -> EngineView {
        EngineView {
            config: self.config.deep_view(),
            active: self.active_snapshot.deep_view(),
            rig_loaded: self.rig_loaded,
        }
    }
}

/// What a switch to the snapshot called `name` takes: the rig, where it is not loaded yet, then
/// the snapshot, unless there is none of that name or it is active already.
pub open spec fn switch_plan(engine: EngineView, name: Seq<char>) -> Seq<StepView> {
    (if engine.rig_loaded {
        Seq::empty()
    } else {
        rig_plan(engine.config)
    }) + (match snapshot_named(engine.config.snapshots, name) {
        None => Seq::empty(),
        Some(snapshot) => if engine.active == Some(name) {
            Seq::empty()
        } else {
            snapshot_plan(snapshot)
        },
    })
}

/// What a switch to the snapshot at `index` takes.
pub open spec fn index_plan(engine: EngineView, index: int) -> Seq<StepView> {
    if 0 <= index < engine.config.snapshots.len() {
        switch_plan(engine, engine.config.snapshots[index].name)
    } else {
        Seq::empty()
    }
}

/// The engine once an action has succeeded.
pub open spec fn effect(engine: EngineView, action: ActionView) -> EngineView {
    match action {
        ActionView::RigLoaded => EngineView { rig_loaded: true, ..engine },
        ActionView::Activate { name } => EngineView { active: Some(name), ..engine },
        _ => engine,
    }
}

/// The engine and its task after a step, and how the work stands then.
pub struct AdvanceView {
    pub engine: EngineView,
    pub task: TaskView,
    pub progress: Progress,
}

/// What the end of the current step of a task changes. Only a success has an effect; a failure ends
/// the work unless the step is tolerated. With no step left nothing changes.
pub open spec fn advanced(engine: EngineView, task: TaskView, succeeded: bool) -> AdvanceView {
    if task.done >= task.steps.len() {
        AdvanceView { engine, task, progress: Progress::Finished }
    } else if !succeeded && !task.steps[task.done].tolerated {
        AdvanceView { engine, task, progress: Progress::Failed }
    } else {
        AdvanceView {
            engine: if succeeded {
                effect(engine, task.steps[task.done].action)
            } else {
                engine
            },
            task: TaskView { done: task.done + 1, ..task },
            progress: if task.done + 1 < task.steps.len() {
                Progress::Continue
            } else {
                Progress::Finished
            },
        }
    }
}

/// Where a control change goes: the parameter, the range that it is scaled to, and the value.
#[derive(Debug)]
pub struct CcRoute {
    pub instance: u32,
    pub param: String,
    pub min: Number,
    pub max: Number,
    pub value: u8,
}

/// The model of a [`CcRoute`].
pub struct RouteView {
    pub instance: u32,
    pub param: Seq<char>,
    pub min: Number,
    pub max: Number,
    pub value: u8,
}

impl DeepView for CcRoute {
    type V = RouteView;

    open spec fn deep_view(&self) -> RouteView {
        RouteView {
            instance: self.instance,
            param: self.param@,
            min: self.min,
            max: self.max,
            value: self.value,
        }
    }
}

/// A pedal is meant by a control change of its number, on its channel where it has one.
pub open spec fn pedal_matches(pedal: PedalView, channel: u8, cc: u8) -> bool {
    pedal.cc == cc && (pedal.channel matches Some(c) ==> c == channel)
}

/// The position of the first pedal that a control change means, from `i` on.
pub open spec fn pedal_position(pedals: Seq<PedalView>, channel: u8, cc: u8, i: int) -> int
    decreases pedals.len() - i,
{
    if 0 <= i < pedals.len() && !pedal_matches(pedals[i], channel, cc) {
        pedal_position(pedals, channel, cc, i + 1)
    } else {
        i
    }
}

/// The name of the pedal that a control change means.
pub open spec fn pedal_name(
    pedals: Option<Seq<PedalView>>,
    channel: u8,
    cc: u8,
) -> Option<Seq<char>> {
    match pedals {
        None => None,
        Some(pedals) => {
            let at = pedal_position(pedals, channel, cc, 0);
            if at < pedals.len() {
                Some(pedals[at].name)
            } else {
                None
            }
        },
    }
}

/// The double 0.0.
pub open spec fn zero() -> Number {
    Number { bits: 0 }
}

/// The double 1.0.
pub open spec fn one() -> Number {
    Number { bits: 0x3ff0_0000_0000_0000 }
}

/// The route to a target; its range is 0.0 to 1.0 where it does not say otherwise.
pub open spec fn route_to(target: TargetView, value: u8) -> RouteView {
    RouteView {
        instance: target.instance,
        param: target.param,
        min: match target.min {
            Some(n) => n,
            None => zero(),
        },
        max: match target.max {
            Some(n) => n,
            None => one(),
        },
        value,
    }
}

/// Where a control change goes: to what the active snapshot assigns to the pedal that sent it.
pub open spec fn cc_route(engine: EngineView, channel: u8, cc: u8, value: u8) -> Option<RouteView> {
    match (pedal_name(engine.config.expression, channel, cc), engine.active) {
        (Some(pedal), Some(active)) => match snapshot_named(engine.config.snapshots, active) {
            None => None,
            Some(snapshot) => match keyed::lookup(snapshot.expression, pedal) {
                None => None,
                Some(target) => Some(route_to(target, value)),
            },
        },
        _ => None,
    }
}

fn find_snapshot(snapshots: &Vec<AudioSnapshot>, name: &str) -> (r: usize)
    ensures
        r <= snapshots.len(),
        r == snapshot_position(snapshots.deep_view(), name@, 0),
{
    let mut i: usize = 0;
    while i < snapshots.len() && !text::same(snapshots[i].name.as_str(), name)
        invariant
            i <= snapshots.len(),
            snapshot_position(snapshots.deep_view(), name@, 0) == snapshot_position(
                snapshots.deep_view(),
                name@,
                i as int,
            ),
        decreases snapshots.len() - i,
    {
        assert(snapshots.deep_view()[i as int].name == snapshots[i as int].name@);
        i = i + 1;
    }
    proof {
        if i < snapshots.len() {
            assert(snapshots.deep_view()[i as int].name == snapshots[i as int].name@);
        }
    }
    i
}

fn find_pedal(pedals: &Vec<PedalMapping>, channel: u8, cc: u8) -> (r: usize)
    ensures
        r <= pedals.len(),
        r == pedal_position(pedals.deep_view(), channel, cc, 0),
{
    let mut i: usize = 0;
    while i < pedals.len()
        invariant
            i <= pedals.len(),
            pedal_position(pedals.deep_view(), channel, cc, 0) == pedal_position(
                pedals.deep_view(),
                channel,
                cc,
                i as int,
            ),
        decreases pedals.len() - i,
    {
        let pedal = &pedals[i];
        assert(pedals.deep_view()[i as int] == pedal.deep_view());
        let on_channel = match pedal.channel {
            Some(c) => c == channel,
            None => true,
        };
        if pedal.cc == cc && on_channel {
            return i;
        }
        i = i + 1;
    }
    i
}

fn push_step(steps: &mut Vec<Step>, action: Action, tolerated: bool)
    ensures
        final(steps).deep_view() == old(steps).deep_view().push(
            StepView { action: action.deep_view(), tolerated },
        ),
{
    let ghost before = steps.deep_view();
    let step = Step { action, tolerated };
    steps.push(step);
    assert(steps.deep_view() =~= before.push(step.deep_view()));
}

fn push_adds(steps: &mut Vec<Step>, plugins: &Vec<AudioPlugin>)
    ensures
        final(steps).deep_view() == old(steps).deep_view() + add_steps(plugins.deep_view()),
{
    let ghost before = steps.deep_view();
    let mut i: usize = 0;
    assert(before =~= before + add_steps(plugins.deep_view().take(0)));
    while i < plugins.len()
        invariant
            i <= plugins.len(),
            steps.deep_view() == before + add_steps(plugins.deep_view().take(i as int)),
        decreases plugins.len() - i,
    {
        push_step(steps, Action::AddPlugin { uri: plugins[i].uri.clone(), id: plugins[i].id }, false);
        i = i + 1;
        assert(steps.deep_view() =~= before + add_steps(plugins.deep_view().take(i as int)));
    }
    assert(plugins.deep_view().take(i as int) =~= plugins.deep_view());
}

fn push_connects(steps: &mut Vec<Step>, connections: &Vec<[String; 2]>)
    ensures
        final(steps).deep_view() == old(steps).deep_view() + connect_steps(
            connections.deep_view(),
        ),
{
    let ghost before = steps.deep_view();
    let mut i: usize = 0;
    assert(before =~= before + connect_steps(connections.deep_view().take(0)));
    while i < connections.len()
        invariant
            i <= connections.len(),
            steps.deep_view() == before + connect_steps(connections.deep_view().take(i as int)),
        decreases connections.len() - i,
    {
        let ends = &connections[i];
        push_step(
            steps,
            Action::ConnectPorts { from: ends[0].clone(), to: ends[1].clone() },
            true,
        );
        i = i + 1;
        assert(connections.deep_view()[i - 1] == ends.deep_view());
        assert(steps.deep_view() =~= before + connect_steps(
            connections.deep_view().take(i as int),
        ));
    }
    assert(connections.deep_view().take(i as int) =~= connections.deep_view());
}

fn push_models(steps: &mut Vec<Step>, plugins: &Vec<AudioPlugin>)
    ensures
        final(steps).deep_view() == old(steps).deep_view() + model_steps(plugins.deep_view()),
{
    let ghost before = steps.deep_view();
    let mut i: usize = 0;
    assert(before =~= before + model_steps(plugins.deep_view().take(0)));
    while i < plugins.len()
        invariant
            i <= plugins.len(),
            steps.deep_view() == before + model_steps(plugins.deep_view().take(i as int)),
        decreases plugins.len() - i,
    {
        let ghost upto = plugins.deep_view().take(i + 1);
        assert(upto.drop_last() =~= plugins.deep_view().take(i as int));
        assert(upto.last() == plugins[i as int].deep_view());
        let plugin = &plugins[i];
        if let Some(model) = &plugin.model {
            let path = model_path(plugin.id);
            let bundle = AudioEngine::create_model_bundle(
                path.as_str(),
                plugin.id,
                plugin.uri.as_str(),
                model.as_str(),
            );
            push_step(steps, Action::WriteBundle(bundle), false);
            push_step(steps, Action::BundleAdd { path }, false);
            push_step(
                steps,
                Action::PresetLoad { id: plugin.id, uri: model_uri(plugin.id) },
                false,
            );
        }
        i = i + 1;
        assert(steps.deep_view() =~= before + model_steps(upto));
    }
    assert(plugins.deep_view().take(i as int) =~= plugins.deep_view());
}

fn push_bypasses(steps: &mut Vec<Step>, plugins: &Vec<AudioPlugin>)
    ensures
        final(steps).deep_view() == old(steps).deep_view() + bypass_steps(plugins.deep_view()),
{
    let ghost before = steps.deep_view();
    let mut i: usize = 0;
    assert(before =~= before + bypass_steps(plugins.deep_view().take(0)));
    while i < plugins.len()
        invariant
            i <= plugins.len(),
            steps.deep_view() == before + bypass_steps(plugins.deep_view().take(i as int)),
        decreases plugins.len() - i,
    {
        push_step(steps, Action::Bypass { id: plugins[i].id, bypassed: true }, false);
        i = i + 1;
        assert(steps.deep_view() =~= before + bypass_steps(plugins.deep_view().take(i as int)));
    }
    assert(plugins.deep_view().take(i as int) =~= plugins.deep_view());
}

fn push_rig(steps: &mut Vec<Step>, config: &AudioConfig)
    ensures
        final(steps).deep_view() == old(steps).deep_view() + rig_plan(config.deep_view()),
{
    let ghost before = steps.deep_view();
    push_step(steps, Action::RemoveAll, false);
    push_step(steps, Action::Pause { millis: 100 }, false);
    push_adds(steps, &config.plugins);
    push_step(steps, Action::Pause { millis: 200 }, false);
    push_connects(steps, &config.connections);
    push_models(steps, &config.plugins);
    push_bypasses(steps, &config.plugins);
    push_step(steps, Action::RigLoaded, false);
    assert(steps.deep_view() =~= before + rig_plan(config.deep_view()));
}

fn push_params(steps: &mut Vec<Step>, id: u32, params: &Vec<(String, Number)>)
    ensures
        final(steps).deep_view() == old(steps).deep_view() + param_steps(id, params.deep_view()),
{
    let ghost before = steps.deep_view();
    let mut i: usize = 0;
    assert(before =~= before + param_steps(id, params.deep_view().take(0)));
    while i < params.len()
        invariant
            i <= params.len(),
            steps.deep_view() == before + param_steps(id, params.deep_view().take(i as int)),
        decreases params.len() - i,
    {
        push_step(
            steps,
            Action::ParamSet { id, symbol: params[i].0.clone(), value: params[i].1 },
            false,
        );
        i = i + 1;
        assert(steps.deep_view() =~= before + param_steps(id, params.deep_view().take(i as int)));
    }
    assert(params.deep_view().take(i as int) =~= params.deep_view());
}

fn push_snapshot(steps: &mut Vec<Step>, snapshot: &AudioSnapshot)
    ensures
        final(steps).deep_view() == old(steps).deep_view() + snapshot_plan(snapshot.deep_view()),
{
    let ghost before = steps.deep_view();
    let ghost state = snapshot.state.deep_view();
    let mut i: usize = 0;
    assert(before =~= before + state_steps(state.take(0)));
    while i < snapshot.state.len()
        invariant
            i <= snapshot.state.len(),
            state == snapshot.state.deep_view(),
            steps.deep_view() == before + state_steps(state.take(i as int)),
        decreases snapshot.state.len() - i,
    {
        let ghost upto = state.take(i + 1);
        let entry = &snapshot.state[i];
        assert(upto.drop_last() =~= state.take(i as int));
        assert(upto.last() == (entry.0@, entry.1.deep_view()));
        if let Some(id) = text::parse_u32(entry.0.as_str()) {
            let bypassed = match entry.1.bypassed {
                Some(b) => b,
                None => false,
            };
            push_step(steps, Action::Bypass { id, bypassed }, false);
            push_params(steps, id, &entry.1.params);
        }
        i = i + 1;
        assert(steps.deep_view() =~= before + state_steps(upto));
    }
    assert(state.take(i as int) =~= state);
    push_step(steps, Action::Activate { name: snapshot.name.clone() }, false);
    assert(steps.deep_view() =~= before + snapshot_plan(snapshot.deep_view()));
}

impl AudioEngine {
    /// An engine whose rig is not loaded yet.
    pub fn new(config: AudioConfig) -> (r: AudioEngine)
        requires
            config.deep_view().wf(),
        ensures
            r@ == (EngineView { config: config.deep_view(), active: None, rig_loaded: false }),
    {
        AudioEngine { config, active_snapshot: None, rig_loaded: false }
    }

    /// The configuration of the rig.
    pub fn config(&self) -> (r: &AudioConfig)
        ensures
            r.deep_view() == self@.config,
    {
        &self.config
    }

    /// The name of the currently active snapshot (if any).
    pub fn active_snapshot_name(&self) -> (r: Option<&str>)
        ensures
            match r {
                Some(name) => self@.active == Some(name@),
                None => self@.active is None,
            },
    {
        match &self.active_snapshot {
            Some(name) => Some(name.as_str()),
            None => None,
        }
    }

    /// Tells whether the rig is loaded.
    pub fn is_rig_loaded(&self) -> (r: bool)
        ensures
            r == self@.rig_loaded,
    {
        self.rig_loaded
    }

    /// Plans the loading of the full rig: all plugins, connections and models.
    pub fn load_rig(&self) -> (r: Task)
        ensures
            r@ == (TaskView { steps: rig_plan(self@.config), done: 0 }),
    {
        let mut steps: Vec<Step> = Vec::new();
        assert(steps.deep_view() =~= Seq::<StepView>::empty());
        push_rig(&mut steps, &self.config);
        assert(steps.deep_view() =~= rig_plan(self.config.deep_view()));
        Task { steps, done: 0 }
    }

    /// Plans the switch to a named snapshot (instant: bypass + param_set only, once the rig is
    /// loaded).
    pub fn switch_snapshot(&self, snapshot_name: &str) -> (r: Task)
        ensures
            r@ == (TaskView { steps: switch_plan(self@, snapshot_name@), done: 0 }),
    {
        let mut steps: Vec<Step> = Vec::new();
        assert(steps.deep_view() =~= Seq::<StepView>::empty());
        if !self.rig_loaded {
            push_rig(&mut steps, &self.config);
        }
        let at = find_snapshot(&self.config.snapshots, snapshot_name);
        if at < self.config.snapshots.len() {
            let snapshot = &self.config.snapshots[at];
            assert(self@.config.snapshots[at as int] == snapshot.deep_view());
            let active = match &self.active_snapshot {
                Some(name) => text::same(name.as_str(), snapshot_name),
                None => false,
            };
            if !active {
                push_snapshot(&mut steps, snapshot);
            }
        }
        assert(steps.deep_view() =~= switch_plan(self@, snapshot_name@));
        Task { steps, done: 0 }
    }

    /// Plans the switch to a snapshot by index (for Program Change). An index that no snapshot
    /// has takes nothing.
    pub fn switch_snapshot_by_index(&self, index: usize) -> (r: Task)
        ensures
            r@ == (TaskView { steps: index_plan(self@, index as int), done: 0 }),
    {
        if index >= self.config.snapshots.len() {
            let steps: Vec<Step> = Vec::new();
            assert(steps.deep_view() =~= Seq::<StepView>::empty());
            return Task { steps, done: 0 };
        }
        assert(self@.config.snapshots[index as int]
            == self.config.snapshots[index as int].deep_view());
        self.switch_snapshot(self.config.snapshots[index].name.as_str())
    }

    /// Takes up how the current step of `task` ended.
    pub fn advance(&mut self, task: &mut Task, succeeded: bool) -> (r: Progress)
        ensures
            ({
                let after = advanced(old(self)@, old(task)@, succeeded);
                &&& final(self)@ == after.engine
                &&& final(task)@ == after.task
                &&& r == after.progress
            }),
    {
        if task.done >= task.steps.len() {
            return Progress::Finished;
        }
        assert(task@.steps[task@.done] == task.steps[task.done as int].deep_view());
        if !succeeded && !task.steps[task.done].tolerated {
            return Progress::Failed;
        }
        if succeeded {
            match &task.steps[task.done].action {
                Action::RigLoaded => {
                    self.rig_loaded = true;
                },
                Action::Activate { name } => {
                    self.active_snapshot = Some(name.clone());
                },
                _ => {},
            }
        }
        task.done = task.done + 1;
        if task.done < task.steps.len() {
            Progress::Continue
        } else {
            Progress::Finished
        }
    }

    /// Routes an incoming MIDI CC message to a plugin parameter, based on the active snapshot's
    /// expression assignments.
    pub fn handle_cc(&self, channel: u8, cc: u8, value: u8) -> (r: Option<CcRoute>)
        ensures
            r.deep_view() == cc_route(self@, channel, cc, value),
    {
        let pedals = match &self.config.expression {
            Some(pedals) => pedals,
            None => {
                return None;
            },
        };
        let at = find_pedal(pedals, channel, cc);
        if at >= pedals.len() {
            return None;
        }
        assert(pedals.deep_view()[at as int] == pedals[at as int].deep_view());
        let pedal = &pedals[at].name;
        let active = match &self.active_snapshot {
            Some(name) => name,
            None => {
                return None;
            },
        };
        let found = find_snapshot(&self.config.snapshots, active.as_str());
        if found >= self.config.snapshots.len() {
            return None;
        }
        let snapshot = &self.config.snapshots[found];
        assert(self@.config.snapshots[found as int] == snapshot.deep_view());
        match keyed::get(&snapshot.expression, pedal.as_str()) {
            None => None,
            Some(target) => Some(
                CcRoute {
                    instance: target.instance,
                    param: target.param.clone(),
                    min: match target.min {
                        Some(n) => n,
                        None => Number { bits: 0 },
                    },
                    max: match target.max {
                        Some(n) => n,
                        None => Number { bits: 0x3ff0_0000_0000_0000 },
                    },
                    value,
                },
            ),
        }
    }

    /// A bundle with the preset that puts the model at `model_path` into an instance.
    pub fn create_model_bundle(
        bundle_path: &str,
        instance_id: u32,
        plugin_uri: &str,
        model_path: &str,
    ) -> (r: ModelBundle)
        ensures
            r.deep_view() == model_bundle(bundle_path@, instance_id, plugin_uri@, model_path@),
    {
        let preset_uri = model_uri(instance_id);
        let mut manifest = String::new();
        push_preset_prefixes(&mut manifest);
        push_rdfs_prefix(&mut manifest);
        manifest.append("<");
        manifest.append(preset_uri.as_str());
        manifest.append(">\n    a pset:Preset ;\n    lv2:appliesTo <");
        manifest.append(plugin_uri);
        manifest.append("> ;\n    rdfs:seeAlso <presets.ttl> .\n");
        assert(manifest@ =~= bundle_manifest(instance_id, plugin_uri@));
        let mut presets = String::new();
        push_preset_prefixes(&mut presets);
        presets.append("@prefix state: <http://lv2plug.in/ns/ext/state#> .\n");
        push_rdfs_prefix(&mut presets);
        presets.append("<");
        presets.append(preset_uri.as_str());
        presets.append(">\n    a pset:Preset ;\n    rdfs:label \"model-");
        text::push_decimal(&mut presets, instance_id as u64);
        presets.append("\" ;\n    lv2:appliesTo <");
        presets.append(plugin_uri);
        presets.append("> ;\n    state:state [\n        <");
        presets.append(plugin_uri);
        presets.append("#json> <");
        presets.append(model_path);
        presets.append(">\n    ] .\n");
        assert(presets@ =~= bundle_presets(instance_id, plugin_uri@, model_path@));
        ModelBundle {
            dir: bundle_path.to_owned(),
            manifest_path: bundle_path.to_owned().concat("/manifest.ttl"),
            manifest,
            presets_path: bundle_path.to_owned().concat("/presets.ttl"),
            presets,
        }
    }
}

/// How a task ends: the engine after it, and the step whose failure ended it, if one did.
pub struct RunView {
    pub engine: EngineView,
    pub failed: Option<int>,
}

/// The run of `steps` from `i` on, where `ok` says which steps succeed.
pub open spec fn run(
    engine: EngineView,
    steps: Seq<StepView>,
    ok: spec_fn(int) -> bool,
    i: int,
) -> RunView
    decreases steps.len() - i,
{
    if i < 0 || i >= steps.len() {
        RunView { engine, failed: None }
    } else if ok(i) {
        run(effect(engine, steps[i].action), steps, ok, i + 1)
    } else if steps[i].tolerated {
        run(engine, steps, ok, i + 1)
    } else {
        RunView { engine, failed: Some(i) }
    }
}

/// A run is what reporting the steps one after the other comes to.
pub proof fn law_run_is_step_by_step(
    engine: EngineView,
    steps: Seq<StepView>,
    ok: spec_fn(int) -> bool,
    i: int,
)
    requires
        0 <= i < steps.len(),
    ensures
        ({
            let after = advanced(engine, TaskView { steps, done: i }, ok(i));
            &&& after.task.steps == steps
            &&& run(engine, steps, ok, i) == if after.progress == Progress::Failed {
                RunView { engine: after.engine, failed: Some(i) }
            } else {
                run(after.engine, steps, ok, after.task.done)
            }
            &&& after.progress == Progress::Finished ==> after.task.done == steps.len()
        }),
{
}

/// An engine with an active snapshot has its rig loaded, and knows that snapshot.
pub open spec fn consistent(engine: EngineView) -> bool {
    engine.active matches Some(name) ==> engine.rig_loaded && snapshot_named(
        engine.config.snapshots,
        name,
    ) is Some
}

/// A run changes nothing of the configuration and never unloads the rig.
proof fn lemma_run_keeps(engine: EngineView, steps: Seq<StepView>, ok: spec_fn(int) -> bool, i: int)
    requires
        0 <= i <= steps.len(),
    ensures
        run(engine, steps, ok, i).engine.config == engine.config,
        engine.rig_loaded ==> run(engine, steps, ok, i).engine.rig_loaded,
    decreases steps.len() - i,
{
    if i < steps.len() {
        if ok(i) {
            lemma_run_keeps(effect(engine, steps[i].action), steps, ok, i + 1);
        } else if steps[i].tolerated {
            lemma_run_keeps(engine, steps, ok, i + 1);
        }
    }
}

/// A run without an activation keeps the active snapshot.
proof fn lemma_run_without_activation(
    engine: EngineView,
    steps: Seq<StepView>,
    ok: spec_fn(int) -> bool,
    i: int,
)
    requires
        0 <= i <= steps.len(),
        forall|j: int| i <= j < steps.len() ==> !((#[trigger] steps[j]).action is Activate),
    ensures
        run(engine, steps, ok, i).engine.active == engine.active,
    decreases steps.len() - i,
{
    if i < steps.len() {
        if ok(i) {
            lemma_run_without_activation(effect(engine, steps[i].action), steps, ok, i + 1);
        } else if steps[i].tolerated {
            lemma_run_without_activation(engine, steps, ok, i + 1);
        }
    }
}

/// A run with one activation, at its end, changes the active snapshot if and only if it gets
/// there.
proof fn lemma_run_to_activation(
    engine: EngineView,
    steps: Seq<StepView>,
    ok: spec_fn(int) -> bool,
    i: int,
    name: Seq<char>,
)
    requires
        0 <= i < steps.len(),
        forall|j: int| i <= j < steps.len() - 1 ==> !((#[trigger] steps[j]).action is Activate),
        steps.last() == must(ActionView::Activate { name }),
    ensures
        run(engine, steps, ok, i).engine.active == if run(engine, steps, ok, i).failed is Some {
            engine.active
        } else {
            Some(name)
        },
    decreases steps.len() - i,
{
    if i == steps.len() - 1 {
        reveal_with_fuel(run, 2);
    } else if ok(i) {
        lemma_run_to_activation(effect(engine, steps[i].action), steps, ok, i + 1, name);
    } else if steps[i].tolerated {
        lemma_run_to_activation(engine, steps, ok, i + 1, name);
    }
}

/// A run that gets past the mark has the rig loaded.
proof fn lemma_run_past_mark(
    engine: EngineView,
    steps: Seq<StepView>,
    ok: spec_fn(int) -> bool,
    i: int,
    mark: int,
)
    requires
        0 <= i <= mark < steps.len(),
        steps[mark] == must(ActionView::RigLoaded),
    ensures
        run(engine, steps, ok, i).failed is None ==> run(engine, steps, ok, i).engine.rig_loaded,
    decreases steps.len() - i,
{
    if i == mark {
        if ok(i) {
            lemma_run_keeps(effect(engine, steps[i].action), steps, ok, i + 1);
        }
    } else if ok(i) {
        lemma_run_past_mark(effect(engine, steps[i].action), steps, ok, i + 1, mark);
    } else if steps[i].tolerated {
        lemma_run_past_mark(engine, steps, ok, i + 1, mark);
    }
}

/// The actions that loading a rig takes before the mark.
pub open spec fn is_rig_action(action: ActionView) -> bool {
    !(action is Activate) && !(action is ParamSet) && !(action is RigLoaded)
}

proof fn lemma_model_steps(plugins: Seq<PluginView>)
    ensures
        forall|j: int|
            0 <= j < model_steps(plugins).len() ==> is_rig_action(
                (#[trigger] model_steps(plugins)[j]).action,
            ) && !(model_steps(plugins)[j].action is Bypass),
    decreases plugins.len(),
{
    if plugins.len() > 0 {
        lemma_model_steps(plugins.drop_last());
        let before = model_steps(plugins.drop_last());
        let own = plugin_model_steps(plugins.last());
        assert forall|j: int| 0 <= j < model_steps(plugins).len() implies is_rig_action(
            (#[trigger] model_steps(plugins)[j]).action,
        ) && !(model_steps(plugins)[j].action is Bypass) by {
            if j < before.len() {
                assert(model_steps(plugins)[j] == before[j]);
            } else {
                assert(model_steps(plugins)[j] == own[j - before.len()]);
            }
        }
    }
}

/// The part of the rig's plan before the bypasses.
spec fn rig_front(config: ConfigView) -> Seq<StepView> {
    seq![must(ActionView::RemoveAll), must(ActionView::Pause { millis: 100 })] + add_steps(
        config.plugins,
    ) + seq![must(ActionView::Pause { millis: 200 })] + connect_steps(config.connections)
        + model_steps(config.plugins)
}

proof fn lemma_rig_front(config: ConfigView)
    ensures
        rig_plan(config) == rig_front(config) + bypass_steps(config.plugins) + seq![
            must(ActionView::RigLoaded),
        ],
        forall|j: int|
            0 <= j < rig_front(config).len() ==> is_rig_action(
                (#[trigger] rig_front(config)[j]).action,
            ) && !(rig_front(config)[j].action is Bypass),
{
    lemma_model_steps(config.plugins);
    let a = seq![must(ActionView::RemoveAll), must(ActionView::Pause { millis: 100 })];
    let b = a + add_steps(config.plugins);
    let c = b + seq![must(ActionView::Pause { millis: 200 })];
    let d = c + connect_steps(config.connections);
    assert forall|j: int| 0 <= j < rig_front(config).len() implies is_rig_action(
        (#[trigger] rig_front(config)[j]).action,
    ) && !(rig_front(config)[j].action is Bypass) by {
        if j >= d.len() {
            assert(rig_front(config)[j] == model_steps(config.plugins)[j - d.len()]);
        } else {
            assert(rig_front(config)[j] == d[j]);
            if j >= c.len() {
                assert(d[j] == connect_steps(config.connections)[j - c.len()]);
            } else if j >= b.len() {
            } else if j >= a.len() {
                assert(d[j] == add_steps(config.plugins)[j - a.len()]);
            }
        }
    }
}

/// Loading the rig starts from nothing, and its last commands bypass every plugin, in order;
/// none before them touches a bypass, and none at all sets a parameter or activates a snapshot.
pub proof fn law_rig_leaves_all_bypassed(config: ConfigView)
    ensures
        ({
            let plan = rig_plan(config);
            let n = config.plugins.len();
            &&& plan.len() > n
            &&& plan[0].action is RemoveAll
            &&& plan.last() == must(ActionView::RigLoaded)
            &&& forall|i: int|
                0 <= i < n ==> #[trigger] plan[plan.len() - 1 - n + i] == must(
                    ActionView::Bypass { id: config.plugins[i].id, bypassed: true },
                )
            &&& forall|j: int|
                0 <= j < plan.len() - 1 ==> is_rig_action((#[trigger] plan[j]).action)
            &&& forall|j: int|
                0 <= j < plan.len() - 1 - n ==> !((#[trigger] plan[j]).action is Bypass)
        }),
{
    lemma_rig_front(config);
    let plan = rig_plan(config);
    let front = rig_front(config);
    let n = config.plugins.len();
    assert(plan.len() == front.len() + n + 1);
    assert forall|i: int| 0 <= i < n implies #[trigger] plan[plan.len() - 1 - n + i] == must(
        ActionView::Bypass { id: config.plugins[i].id, bypassed: true },
    ) by {
        assert(plan[plan.len() - 1 - n + i] == bypass_steps(config.plugins)[i]);
    }
    assert forall|j: int| 0 <= j < plan.len() - 1 implies is_rig_action(
        (#[trigger] plan[j]).action,
    ) by {
        if j < front.len() {
            assert(plan[j] == front[j]);
        } else {
            assert(plan[j] == bypass_steps(config.plugins)[j - front.len()]);
        }
    }
    assert forall|j: int| 0 <= j < plan.len() - 1 - n implies !((
    #[trigger] plan[j]).action is Bypass) by {
        assert(plan[j] == front[j]);
    }
}

proof fn lemma_state_steps(state: Seq<(Seq<char>, StateView)>)
    ensures
        forall|j: int|
            0 <= j < state_steps(state).len() ==> {
                ||| (#[trigger] state_steps(state)[j]).action is Bypass
                ||| state_steps(state)[j].action is ParamSet
            },
        forall|j: int|
            0 <= j < state_steps(state).len() ==> !(#[trigger] state_steps(state)[j]).tolerated,
    decreases state.len(),
{
    if state.len() > 0 {
        lemma_state_steps(state.drop_last());
        let before = state_steps(state.drop_last());
        let own = entry_steps(state.last().0, state.last().1);
        assert forall|j: int| 0 <= j < state_steps(state).len() implies {
            &&& {
                ||| (#[trigger] state_steps(state)[j]).action is Bypass
                ||| state_steps(state)[j].action is ParamSet
            }
            &&& !state_steps(state)[j].tolerated
        } by {
            if j < before.len() {
                assert(state_steps(state)[j] == before[j]);
            } else {
                assert(state_steps(state)[j] == own[j - before.len()]);
            }
        }
    }
}

/// Switching snapshots is instant: nothing but bypasses and parameters is sent, and the snapshot
/// becomes active after the last of them.
pub proof fn law_snapshot_is_instant(snapshot: SnapshotView)
    ensures
        ({
            let plan = snapshot_plan(snapshot);
            &&& plan.len() > 0
            &&& plan.last() == must(ActionView::Activate { name: snapshot.name })
            &&& forall|j: int|
                0 <= j < plan.len() - 1 ==> {
                    ||| (#[trigger] plan[j]).action is Bypass
                    ||| plan[j].action is ParamSet
                }
        }),
{
    lemma_state_steps(snapshot.state);
    let plan = snapshot_plan(snapshot);
    let steps = state_steps(snapshot.state);
    assert forall|j: int| 0 <= j < plan.len() - 1 implies {
        ||| (#[trigger] plan[j]).action is Bypass
        ||| plan[j].action is ParamSet
    } by {
        assert(plan[j] == steps[j]);
    }
}

/// Once the rig is loaded, a switch to the snapshot that is active, or to one that does not exist,
/// takes nothing.
pub proof fn law_needless_switch(engine: EngineView, name: Seq<char>)
    requires
        engine.rig_loaded,
        engine.active == Some(name) || snapshot_named(engine.config.snapshots, name) is None,
    ensures
        switch_plan(engine, name) == Seq::<StepView>::empty(),
{
    assert(switch_plan(engine, name) =~= Seq::<StepView>::empty());
}

/// `snapshot_position` finds a snapshot of that name with no other before it, or the end.
pub proof fn lemma_snapshot_position(snapshots: Seq<SnapshotView>, name: Seq<char>, i: int)
    requires
        0 <= i <= snapshots.len(),
    ensures
        i <= snapshot_position(snapshots, name, i) <= snapshots.len(),
        snapshot_position(snapshots, name, i) < snapshots.len()
            ==> snapshots[snapshot_position(snapshots, name, i)].name == name,
        forall|k: int|
            i <= k < snapshot_position(snapshots, name, i) ==> snapshots[k].name != name,
    decreases snapshots.len() - i,
{
    if i < snapshots.len() && snapshots[i].name != name {
        lemma_snapshot_position(snapshots, name, i + 1);
    }
}

/// A switch that goes through makes the snapshot active, with the rig loaded. One that fails, or
/// that names no snapshot, leaves the active snapshot as it was. Either way the configuration
/// stays, and the engine stays consistent.
pub proof fn law_switch(engine: EngineView, name: Seq<char>, ok: spec_fn(int) -> bool)
    requires
        consistent(engine),
    ensures
        ({
            let end = run(engine, switch_plan(engine, name), ok, 0);
            &&& end.engine.config == engine.config
            &&& consistent(end.engine)
            &&& end.failed is None ==> end.engine.rig_loaded
            &&& end.engine.active == if end.failed is None && snapshot_named(
                engine.config.snapshots,
                name,
            ) is Some {
                Some(name)
            } else {
                engine.active
            }
        }),
{
    let plan = switch_plan(engine, name);
    let rig = if engine.rig_loaded {
        Seq::empty()
    } else {
        rig_plan(engine.config)
    };
    lemma_run_keeps(engine, plan, ok, 0);
    law_rig_leaves_all_bypassed(engine.config);
    assert forall|j: int| 0 <= j < rig.len() implies !((#[trigger] plan[j]).action is Activate) by {
        assert(plan[j] == rig[j]);
    }
    if !engine.rig_loaded {
        assert(plan[rig.len() - 1] == must(ActionView::RigLoaded));
        lemma_run_past_mark(engine, plan, ok, 0, rig.len() - 1);
    }
    match snapshot_named(engine.config.snapshots, name) {
        Some(snapshot) if engine.active != Some(name) => {
            lemma_snapshot_position(engine.config.snapshots, name, 0);
            law_snapshot_is_instant(snapshot);
            let own = snapshot_plan(snapshot);
            assert(plan == rig + own);
            assert forall|j: int| 0 <= j < plan.len() - 1 implies !((
            #[trigger] plan[j]).action is Activate) by {
                if j >= rig.len() {
                    assert(plan[j] == own[j - rig.len()]);
                }
            }
            assert(plan.last() == own.last());
            lemma_run_to_activation(engine, plan, ok, 0, name);
        },
        _ => {
            assert(plan =~= rig);
            lemma_run_without_activation(engine, plan, ok, 0);
        },
    }
}

/// A fresh engine is consistent: nothing is active and nothing is loaded.
pub proof fn law_fresh_engine(config: ConfigView)
    ensures
        consistent(EngineView { config, active: None, rig_loaded: false }),
{
}

/// A switch by index is the switch to the snapshot at that index, by name; an index that no
/// snapshot has takes nothing, not even the loading of the rig.
pub proof fn law_switch_by_index(engine: EngineView, index: int)
    ensures
        0 <= index < engine.config.snapshots.len() ==> index_plan(engine, index) == switch_plan(
            engine,
            engine.config.snapshots[index].name,
        ),
        index >= engine.config.snapshots.len() ==> index_plan(engine, index) == Seq::<
            StepView,
        >::empty(),
{
}

/// The preset that is loaded onto an instance is the one that its bundle's manifest declares, for
/// the plugin of that instance, and the preset file names the model.
pub proof fn law_bundle_declares_preset(
    path: Seq<char>,
    id: u32,
    plugin_uri: Seq<char>,
    model: Seq<char>,
)
    ensures
        ({
            let bundle = model_bundle(path, id, plugin_uri, model);
            &&& text::has_part(bundle.manifest, model_preset_uri(id))
            &&& text::has_part(bundle.manifest, plugin_uri)
            &&& text::has_part(bundle.presets, model_preset_uri(id))
            &&& text::has_part(bundle.presets, plugin_uri + "#json> <"@ + model)
        }),
{
    let manifest = bundle_manifest(id, plugin_uri);
    let head = preset_prefixes() + rdfs_prefix() + "<"@;
    let uri = model_preset_uri(id);
    let mid = ">\n    a pset:Preset ;\n    lv2:appliesTo <"@;
    assert(manifest.subrange(head.len() as int, (head.len() + uri.len()) as int) =~= uri);
    assert(text::stands_at(manifest, uri, head.len() as int));
    let at = (head + uri + mid).len() as int;
    assert(manifest.subrange(at, at + plugin_uri.len()) =~= plugin_uri);
    assert(text::stands_at(manifest, plugin_uri, at));
    let presets = bundle_presets(id, plugin_uri, model);
    let top = preset_prefixes() + "@prefix state: <http://lv2plug.in/ns/ext/state#> .\n"@
        + rdfs_prefix() + "<"@;
    assert(presets.subrange(top.len() as int, (top.len() + uri.len()) as int) =~= uri);
    assert(text::stands_at(presets, uri, top.len() as int));
    let up = top + uri + ">\n    a pset:Preset ;\n    rdfs:label \"model-"@ + text::decimal(
        id as nat,
    ) + "\" ;\n    lv2:appliesTo <"@ + plugin_uri + "> ;\n    state:state [\n        <"@;
    let part = plugin_uri + "#json> <"@ + model;
    assert(presets.subrange(up.len() as int, (up.len() + part.len()) as int) =~= part);
    assert(text::stands_at(presets, part, up.len() as int));
}

/// Without an active snapshot no control change goes anywhere; with one, a control change of a
/// pedal goes to the target that the snapshot assigns to that pedal, with the value unchanged.
pub proof fn law_cc_follows_active_snapshot(engine: EngineView, channel: u8, cc: u8, value: u8)
    ensures
        engine.active is None ==> cc_route(engine, channel, cc, value) is None,
        cc_route(engine, channel, cc, value) matches Some(route) ==> {
            &&& route.value == value
            &&& pedal_name(engine.config.expression, channel, cc) matches Some(pedal)
            &&& snapshot_named(engine.config.snapshots, engine.active->0) matches Some(snapshot)
            &&& keyed::lookup(snapshot.expression, pedal) matches Some(target)
            &&& route.instance == target.instance
            &&& route.param == target.param
        },
{
}

proof fn lemma_pedal_position(pedals: Seq<PedalView>, channel: u8, cc: u8, i: int)
    requires
        0 <= i <= pedals.len(),
    ensures
        i <= pedal_position(pedals, channel, cc, i) <= pedals.len(),
        pedal_position(pedals, channel, cc, i) < pedals.len() ==> pedal_matches(
            pedals[pedal_position(pedals, channel, cc, i)],
            channel,
            cc,
        ),
        forall|k: int|
            i <= k < pedal_position(pedals, channel, cc, i) ==> !pedal_matches(
                #[trigger] pedals[k],
                channel,
                cc,
            ),
    decreases pedals.len() - i,
{
    if i < pedals.len() && !pedal_matches(pedals[i], channel, cc) {
        lemma_pedal_position(pedals, channel, cc, i + 1);
    }
}

/// The pedal sends control changes of that number on that channel, or on any where it has none.
pub open spec fn sends(pedal: PedalView, channel: u8, cc: u8) -> bool {
    pedal.cc == cc && (pedal.channel is None || pedal.channel == Some(channel))
}

/// A control change of the pedal at `p`, the first that sends it, while the snapshot at `j`, the
/// first of its name, is active, goes to the entry at `t`, the first that the snapshot has for the
/// pedal: to its instance and parameter, with the value as it came. The lower end of the range is
/// the entry's minimum, or 0.0 where it has none, and the upper end is the entry's maximum, or 1.0
/// where it has none, each whatever the other is.
pub proof fn law_cc_goes_to_the_assigned_target(
    engine: EngineView,
    channel: u8,
    cc: u8,
    value: u8,
    p: int,
    j: int,
    t: int,
)
    requires
        engine.config.expression is Some,
        0 <= p < engine.config.expression->0.len(),
        sends(engine.config.expression->0[p], channel, cc),
        forall|k: int| 0 <= k < p ==> !sends(#[trigger] engine.config.expression->0[k], channel, cc),
        0 <= j < engine.config.snapshots.len(),
        engine.active == Some(engine.config.snapshots[j].name),
        forall|k: int|
            0 <= k < j ==> engine.config.snapshots[k].name != engine.config.snapshots[j].name,
        0 <= t < engine.config.snapshots[j].expression.len(),
        engine.config.snapshots[j].expression[t].0 == engine.config.expression->0[p].name,
        forall|k: int|
            0 <= k < t ==> (#[trigger] engine.config.snapshots[j].expression[k]).0
                != engine.config.expression->0[p].name,
    ensures
        ({
            let target = engine.config.snapshots[j].expression[t].1;
            &&& cc_route(engine, channel, cc, value) matches Some(route)
            &&& route.instance == target.instance
            &&& route.param == target.param
            &&& route.value == value
            &&& target.min matches Some(min) ==> route.min == min
            &&& target.min is None ==> route.min.bits == 0
            &&& target.max matches Some(max) ==> route.max == max
            &&& target.max is None ==> route.max.bits == 0x3ff0_0000_0000_0000
        }),
{
    let pedals = engine.config.expression->0;
    let name = engine.config.snapshots[j].name;
    lemma_pedal_position(pedals, channel, cc, 0);
    let at = pedal_position(pedals, channel, cc, 0);
    assert(pedal_matches(pedals[p], channel, cc));
    assert(at == p) by {
        if at < p {
            assert(!sends(pedals[at], channel, cc));
        }
    }
    lemma_snapshot_position(engine.config.snapshots, name, 0);
    assert(snapshot_position(engine.config.snapshots, name, 0) == j);
    let entries = engine.config.snapshots[j].expression;
    keyed::lemma_key_position(entries, pedals[p].name, 0);
    assert(keyed::key_position(entries, pedals[p].name, 0) == t);
}

/// A control change goes nowhere where no pedal sends it, where no snapshot is active, or where the
/// snapshots of the active name have nothing for the names of the pedals that send it.
pub proof fn law_cc_goes_nowhere_else(engine: EngineView, channel: u8, cc: u8, value: u8)
    requires
        ({
            ||| engine.config.expression is None
            ||| engine.active is None
            ||| forall|p: int|
                0 <= p < engine.config.expression->0.len() ==> !sends(
                    #[trigger] engine.config.expression->0[p],
                    channel,
                    cc,
                )
            ||| forall|j: int, p: int, t: int|
                0 <= j < engine.config.snapshots.len() && Some(engine.config.snapshots[j].name)
                    == engine.active && 0 <= p < engine.config.expression->0.len() && sends(
                    engine.config.expression->0[p],
                    channel,
                    cc,
                ) && 0 <= t < engine.config.snapshots[j].expression.len() ==> (
                #[trigger] engine.config.snapshots[j].expression[t]).0 != (
                #[trigger] engine.config.expression->0[p]).name
        }),
    ensures
        cc_route(engine, channel, cc, value) is None,
{
    if engine.config.expression is Some && engine.active is Some {
        let pedals = engine.config.expression->0;
        lemma_pedal_position(pedals, channel, cc, 0);
        let p = pedal_position(pedals, channel, cc, 0);
        if p < pedals.len() {
            assert(sends(pedals[p], channel, cc));
            lemma_snapshot_position(engine.config.snapshots, engine.active->0, 0);
            let j = snapshot_position(engine.config.snapshots, engine.active->0, 0);
            if j < engine.config.snapshots.len() {
                let entries = engine.config.snapshots[j].expression;
                keyed::lemma_key_position(entries, pedals[p].name, 0);
                let t = keyed::key_position(entries, pedals[p].name, 0);
                if t < entries.len() {
                    assert(engine.config.snapshots[j].expression[t].0 == pedals[p].name);
                }
            }
        }
    }
}

/// A report moves a task on by one step, and only then: where the step went through, or its failure
/// is tolerated. A step that went through and says that the rig is loaded, or that a snapshot is
/// active, makes it so; nothing else changes the engine. A failure that is not tolerated ends the
/// task where it stands.
pub proof fn law_report_moves_on(engine: EngineView, task: TaskView, succeeded: bool)
    requires
        0 <= task.done < task.steps.len(),
    ensures
        ({
            let step = task.steps[task.done];
            let after = advanced(engine, task, succeeded);
            &&& after.task.steps == task.steps
            &&& after.engine.config == engine.config
            &&& if succeeded || step.tolerated {
                &&& after.task.done == task.done + 1
                &&& after.progress == Progress::Finished <==> task.done + 1 == task.steps.len()
                &&& after.progress != Progress::Failed
            } else {
                &&& after.task.done == task.done
                &&& after.progress == Progress::Failed
            }
            &&& after.engine.rig_loaded == (engine.rig_loaded || (succeeded && step.action is
                RigLoaded))
            &&& after.engine.active == (if succeeded && step.action is Activate {
                Some(step.action->Activate_name)
            } else {
                engine.active
            })
        }),
{
}

/// A text that reads as an audio configuration is one, whatever else it reads as; one that does not
/// is what its audio section is, where it is a setlist that has one.
pub proof fn law_config_choice<T>(config: T, setlist: Option<Option<T>>)
    ensures
        chosen_config(Some(config), setlist) == Some(config),
        chosen_config(None, Some(Some(config))) == Some(config),
        chosen_config::<T>(None, Some(None)) is None,
        chosen_config::<T>(None, None) is None,
{
}

/// The snapshot that a name means is the first of that name, and where none has the name, none is
/// meant.
pub proof fn law_snapshot_of_a_name(snapshots: Seq<SnapshotView>, name: Seq<char>)
    ensures
        match snapshot_named(snapshots, name) {
            Some(snapshot) => exists|j: int|
                {
                    &&& 0 <= j < snapshots.len()
                    &&& #[trigger] snapshots[j] == snapshot
                    &&& snapshot.name == name
                    &&& forall|k: int| 0 <= k < j ==> (#[trigger] snapshots[k]).name != name
                },
            None => forall|j: int|
                0 <= j < snapshots.len() ==> (#[trigger] snapshots[j]).name != name,
        },
{
    lemma_snapshot_position(snapshots, name, 0);
    let j = snapshot_position(snapshots, name, 0);
    if j < snapshots.len() {
        assert(snapshots[j].name == name);
    }
}

/// A switch loads the rig first where it is not loaded, and never where it is.
pub proof fn law_switch_loads_the_rig_once(engine: EngineView, name: Seq<char>)
    ensures
        !engine.rig_loaded ==> rig_plan(engine.config).is_prefix_of(switch_plan(engine, name)),
        engine.rig_loaded ==> forall|j: int|
            0 <= j < switch_plan(engine, name).len() ==> {
                ||| (#[trigger] switch_plan(engine, name)[j]).action is Bypass
                ||| switch_plan(engine, name)[j].action is ParamSet
                ||| switch_plan(engine, name)[j].action is Activate
            },
{
    let plan = switch_plan(engine, name);
    if engine.rig_loaded {
        match snapshot_named(engine.config.snapshots, name) {
            Some(snapshot) if engine.active != Some(name) => {
                law_snapshot_is_instant(snapshot);
                assert(plan =~= snapshot_plan(snapshot));
            },
            _ => {
                assert(plan =~= Seq::<StepView>::empty());
            },
        }
    } else {
        let rig = rig_plan(engine.config);
        assert(plan.subrange(0, rig.len() as int) =~= rig);
    }
}

} // verus!
