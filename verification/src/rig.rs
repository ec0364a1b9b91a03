//! What the loading of a rig does, step by step: every plugin, connection and model has its place
//! in the plan.
use vstd::prelude::*;

use crate::audio;
use crate::audio::{ActionView, BundleView, ConfigView, PluginView, StepView};
use crate::text;

verus! {

/// How many of the plugins have a model.
pub open spec fn model_count(plugins: Seq<PluginView>) -> nat
    decreases plugins.len(),
{
    if plugins.len() == 0 {
        0
    } else {
        model_count(plugins.drop_last()) + if plugins.last().model is Some {
            1nat
        } else {
            0nat
        }
    }
}

/// The bundle is one that gives the model to a plugin as the preset `uri`: both of its files name the
/// preset and the plugin, the preset file names the model, and the files lie in the bundle.
pub open spec fn gives_model(
    bundle: BundleView,
    uri: Seq<char>,
    plugin: Seq<char>,
    model: Seq<char>,
) -> bool {
    &&& text::has_part(bundle.manifest, "\n<"@ + uri + ">\n"@)
    &&& text::has_part(bundle.manifest, "lv2:appliesTo <"@ + plugin + ">"@)
    &&& text::has_part(bundle.presets, "\n<"@ + uri + ">\n"@)
    &&& text::has_part(bundle.presets, "lv2:appliesTo <"@ + plugin + ">"@)
    &&& text::has_part(bundle.presets, "<"@ + plugin + "#json> <"@ + model + ">"@)
    &&& bundle.manifest_path == bundle.dir + "/manifest.ttl"@
    &&& bundle.presets_path == bundle.dir + "/presets.ttl"@
}

proof fn lemma_part(a: Seq<char>, part: Seq<char>, b: Seq<char>)
    ensures
        text::has_part(a + part + b, part),
{
    let s = a + part + b;
    assert(s.subrange(a.len() as int, (a.len() + part.len()) as int) =~= part);
    assert(text::stands_at(s, part, a.len() as int));
}

proof fn lemma_manifest(id: u32, plugin: Seq<char>)
    ensures
        ({
            let manifest = audio::bundle_manifest(id, plugin);
            &&& text::has_part(manifest, "\n<"@ + audio::model_preset_uri(id) + ">\n"@)
            &&& text::has_part(manifest, "lv2:appliesTo <"@ + plugin + ">"@)
        }),
{
    let uri = audio::model_preset_uri(id);
    let manifest = audio::bundle_manifest(id, plugin);
    let rdfs = "@prefix rdfs: <http://www.w3.org/2000/01/rdf-schema#> .\n\n"@;
    let mid = ">\n    a pset:Preset ;\n    lv2:appliesTo <"@;
    let tail = "> ;\n    rdfs:seeAlso <presets.ttl> .\n"@;
    reveal_strlit("@prefix rdfs: <http://www.w3.org/2000/01/rdf-schema#> .\n\n");
    reveal_strlit(">\n    a pset:Preset ;\n    lv2:appliesTo <");
    reveal_strlit("> ;\n    rdfs:seeAlso <presets.ttl> .\n");
    reveal_strlit("\n<");
    reveal_strlit(">\n");
    reveal_strlit("<");
    reveal_strlit(">");
    reveal_strlit("lv2:appliesTo <");
    let front = audio::preset_prefixes() + rdfs.drop_last();
    let named = "\n<"@ + uri + ">\n"@;
    let after = mid.skip(2) + plugin + tail;
    assert(rdfs =~= rdfs.drop_last() + seq!['\n']);
    assert("\n<"@ =~= seq!['\n'] + "<"@);
    assert(mid =~= ">\n"@ + mid.skip(2));
    assert(manifest =~= front + named + after);
    lemma_part(front, named, after);
    let applied = "lv2:appliesTo <"@ + plugin + ">"@;
    let cut = mid.len() - 15;
    assert(mid.skip(cut) =~= "lv2:appliesTo <"@);
    let head = audio::preset_prefixes() + rdfs + "<"@ + uri + mid.take(cut);
    assert(mid =~= mid.take(cut) + mid.skip(cut));
    assert(tail =~= ">"@ + tail.skip(1));
    assert(manifest =~= head + applied + tail.skip(1));
    lemma_part(head, applied, tail.skip(1));
}

proof fn lemma_presets(id: u32, plugin: Seq<char>, model: Seq<char>)
    ensures
        ({
            let presets = audio::bundle_presets(id, plugin, model);
            &&& text::has_part(presets, "\n<"@ + audio::model_preset_uri(id) + ">\n"@)
            &&& text::has_part(presets, "lv2:appliesTo <"@ + plugin + ">"@)
            &&& text::has_part(presets, "<"@ + plugin + "#json> <"@ + model + ">"@)
        }),
{
    let uri = audio::model_preset_uri(id);
    let presets = audio::bundle_presets(id, plugin, model);
    let state = "@prefix state: <http://lv2plug.in/ns/ext/state#> .\n"@;
    let rdfs = "@prefix rdfs: <http://www.w3.org/2000/01/rdf-schema#> .\n\n"@;
    let label = ">\n    a pset:Preset ;\n    rdfs:label \"model-"@;
    let applies = "\" ;\n    lv2:appliesTo <"@;
    let open = "> ;\n    state:state [\n        <"@;
    let json = "#json> <"@;
    let close = ">\n    ] .\n"@;
    let number = text::decimal(id as nat);
    reveal_strlit("@prefix rdfs: <http://www.w3.org/2000/01/rdf-schema#> .\n\n");
    reveal_strlit(">\n    a pset:Preset ;\n    rdfs:label \"model-");
    reveal_strlit("\" ;\n    lv2:appliesTo <");
    reveal_strlit("> ;\n    state:state [\n        <");
    reveal_strlit(">\n    ] .\n");
    reveal_strlit("\n<");
    reveal_strlit(">\n");
    reveal_strlit("<");
    reveal_strlit(">");
    reveal_strlit("lv2:appliesTo <");
    let front = audio::preset_prefixes() + state + rdfs.drop_last();
    let named = "\n<"@ + uri + ">\n"@;
    let after = label.skip(2) + number + applies + plugin + open + plugin + json + model + close;
    assert(rdfs =~= rdfs.drop_last() + seq!['\n']);
    assert("\n<"@ =~= seq!['\n'] + "<"@);
    assert(label =~= ">\n"@ + label.skip(2));
    assert(presets =~= front + named + after);
    lemma_part(front, named, after);
    let upto = audio::preset_prefixes() + state + rdfs + "<"@ + uri + label + number;
    let applied = "lv2:appliesTo <"@ + plugin + ">"@;
    let cut = applies.len() - 15;
    assert(applies.skip(cut) =~= "lv2:appliesTo <"@);
    assert(applies =~= applies.take(cut) + applies.skip(cut));
    assert(open =~= ">"@ + open.skip(1));
    let rest = open.skip(1) + plugin + json + model + close;
    assert(presets =~= (upto + applies.take(cut)) + applied + rest);
    lemma_part(upto + applies.take(cut), applied, rest);
    let stored = "<"@ + plugin + json + model + ">"@;
    let last = open.len() - 1;
    assert(open.skip(last) =~= "<"@);
    assert(open =~= open.take(last) + open.skip(last));
    assert(close =~= ">"@ + close.skip(1));
    let head = upto + applies + plugin + open.take(last);
    assert(presets =~= head + stored + close.skip(1));
    lemma_part(head, stored, close.skip(1));
}

/// The bundle that is made for an instance gives it the model.
pub proof fn law_bundle_gives_model(path: Seq<char>, id: u32, plugin: Seq<char>, model: Seq<char>)
    ensures
        gives_model(
            audio::model_bundle(path, id, plugin, model),
            audio::model_preset_uri(id),
            plugin,
            model,
        ),
        audio::model_bundle(path, id, plugin, model).dir == path,
{
    lemma_manifest(id, plugin);
    lemma_presets(id, plugin, model);
}

/// The names for the model of an instance are fixed texts with the number of the instance.
pub proof fn law_model_names_hold_the_instance(id: u32)
    ensures
        exists|d: Seq<char>|
            {
                &&& audio::model_preset_uri(id) == "http://pedalboard.local/model#"@ + d
                &&& audio::model_bundle_path(id) == "/tmp/pedalboard-model-"@ + d + ".lv2"@
                &&& #[trigger] text::natural(d) == Some(id as nat)
            },
{
    text::law_decimal_reads_back(id as nat);
    assert(text::natural(text::decimal(id as nat)) == Some(id as nat));
}

/// Different instances have different bundles and different presets.
pub proof fn law_models_do_not_collide(a: u32, b: u32)
    requires
        a != b,
    ensures
        audio::model_preset_uri(a) != audio::model_preset_uri(b),
        audio::model_bundle_path(a) != audio::model_bundle_path(b),
{
    text::law_decimal_reads_back(a as nat);
    text::law_decimal_reads_back(b as nat);
    let da = text::decimal(a as nat);
    let db = text::decimal(b as nat);
    assert(da != db);
    let head = "http://pedalboard.local/model#"@;
    if audio::model_preset_uri(a) == audio::model_preset_uri(b) {
        assert(da =~= audio::model_preset_uri(a).skip(head.len() as int));
        assert(db =~= audio::model_preset_uri(b).skip(head.len() as int));
    }
    if audio::model_bundle_path(a) == audio::model_bundle_path(b) {
        let top = "/tmp/pedalboard-model-"@;
        let end = ".lv2"@;
        let pa = audio::model_bundle_path(a);
        let pb = audio::model_bundle_path(b);
        assert(da =~= pa.subrange(top.len() as int, pa.len() - end.len()));
        assert(db =~= pb.subrange(top.len() as int, pb.len() - end.len()));
    }
}

/// At position `w` stand the three steps that load the model of a plugin: a bundle that gives it the
/// model is written, registered where it was written, and its preset is loaded onto the plugin's
/// instance. None of them may fail.
pub open spec fn loads_model_at(plan: Seq<StepView>, w: int, plugin: PluginView) -> bool {
    &&& 0 <= w
    &&& w + 2 < plan.len()
    &&& plugin.model is Some
    &&& plan[w].action matches ActionView::WriteBundle(bundle)
    &&& plan[w + 1].action matches ActionView::BundleAdd { path }
    &&& plan[w + 2].action matches ActionView::PresetLoad { id, uri }
    &&& id == plugin.id
    &&& path == bundle.dir
    &&& gives_model(bundle, uri, plugin.uri, plugin.model->0)
    &&& !plan[w].tolerated && !plan[w + 1].tolerated && !plan[w + 2].tolerated
}

proof fn lemma_model_len(plugins: Seq<PluginView>)
    ensures
        audio::model_steps(plugins).len() == 3 * model_count(plugins),
    decreases plugins.len(),
{
    if plugins.len() > 0 {
        lemma_model_len(plugins.drop_last());
    }
}

proof fn lemma_model_at(plugins: Seq<PluginView>, p: int)
    requires
        0 <= p < plugins.len(),
        plugins[p].model is Some,
    ensures
        loads_model_at(
            audio::model_steps(plugins),
            3 * model_count(plugins.take(p)) as int,
            plugins[p],
        ),
    decreases plugins.len(),
{
    let front = plugins.drop_last();
    let steps = audio::model_steps(plugins);
    let before = audio::model_steps(front);
    lemma_model_len(front);
    if p == plugins.len() - 1 {
        assert(plugins.take(p) =~= front);
        let own = audio::plugin_model_steps(plugins[p]);
        let w = before.len() as int;
        assert(steps[w] == own[0]);
        assert(steps[w + 1] == own[1]);
        assert(steps[w + 2] == own[2]);
        law_bundle_gives_model(
            audio::model_bundle_path(plugins[p].id),
            plugins[p].id,
            plugins[p].uri,
            plugins[p].model->0,
        );
    } else {
        lemma_model_at(front, p);
        assert(front.take(p) =~= plugins.take(p));
        let w = 3 * model_count(plugins.take(p)) as int;
        assert(steps[w] == before[w]);
        assert(steps[w + 1] == before[w + 1]);
        assert(steps[w + 2] == before[w + 2]);
    }
}

/// The plan that loads a rig, place by place: everything is removed, and mod-host has time to settle;
/// each plugin is added, in order, and has time to register its ports; each connection is made, in
/// order, and may fail; the models come then, three steps for each; and each plugin is bypassed, in
/// order, before the rig counts as loaded.
pub proof fn law_rig_place_by_place(config: ConfigView)
    ensures
        ({
            let plan = audio::rig_plan(config);
            let n = config.plugins.len() as int;
            let m = config.connections.len() as int;
            let k = 3 * model_count(config.plugins) as int;
            &&& plan.len() == 4 + n + m + k + n
            &&& plan[0].action is RemoveAll
            &&& plan[1].action == (ActionView::Pause { millis: 100 })
            &&& forall|i: int|
                0 <= i < n ==> (#[trigger] plan[2 + i]).action == (ActionView::AddPlugin {
                    uri: config.plugins[i].uri,
                    id: config.plugins[i].id,
                })
            &&& plan[2 + n].action == (ActionView::Pause { millis: 200 })
            &&& forall|i: int|
                0 <= i < m ==> (#[trigger] plan[3 + n + i]).action == (ActionView::ConnectPorts {
                    from: config.connections[i][0],
                    to: config.connections[i][1],
                })
            &&& forall|i: int|
                0 <= i < n ==> (#[trigger] plan[3 + n + m + k + i]).action == (ActionView::Bypass {
                    id: config.plugins[i].id,
                    bypassed: true,
                })
            &&& plan[3 + n + m + k + n].action is RigLoaded
            &&& forall|j: int|
                0 <= j < plan.len() ==> ((#[trigger] plan[j]).tolerated <==> plan[j].action is
                    ConnectPorts)
        }),
{
    let plan = audio::rig_plan(config);
    let n = config.plugins.len() as int;
    let m = config.connections.len() as int;
    let k = 3 * model_count(config.plugins) as int;
    lemma_model_len(config.plugins);
    let adds = audio::add_steps(config.plugins);
    let connects = audio::connect_steps(config.connections);
    let models = audio::model_steps(config.plugins);
    let bypasses = audio::bypass_steps(config.plugins);
    assert forall|i: int| 0 <= i < n implies (#[trigger] plan[2 + i]).action == (
    ActionView::AddPlugin { uri: config.plugins[i].uri, id: config.plugins[i].id }) by {
        assert(plan[2 + i] == adds[i]);
    }
    assert forall|i: int| 0 <= i < m implies (#[trigger] plan[3 + n + i]).action == (
    ActionView::ConnectPorts { from: config.connections[i][0], to: config.connections[i][1] }) by {
        assert(plan[3 + n + i] == connects[i]);
    }
    assert forall|i: int| 0 <= i < n implies (#[trigger] plan[3 + n + m + k + i]).action == (
    ActionView::Bypass { id: config.plugins[i].id, bypassed: true }) by {
        assert(plan[3 + n + m + k + i] == bypasses[i]);
    }
    lemma_models_are_needed(config.plugins);
    assert forall|j: int| 0 <= j < plan.len() implies ((#[trigger] plan[j]).tolerated <==>
        plan[j].action is ConnectPorts) by {
        if 2 <= j < 2 + n {
            assert(plan[j] == adds[j - 2]);
        } else if 3 + n <= j < 3 + n + m {
            assert(plan[j] == connects[j - 3 - n]);
        } else if 3 + n + m <= j < 3 + n + m + k {
            assert(plan[j] == models[j - 3 - n - m]);
        } else if 3 + n + m + k <= j < 3 + n + m + k + n {
            assert(plan[j] == bypasses[j - 3 - n - m - k]);
        }
    }
}

proof fn lemma_models_are_needed(plugins: Seq<PluginView>)
    ensures
        forall|j: int|
            0 <= j < audio::model_steps(plugins).len() ==> {
                &&& !(#[trigger] audio::model_steps(plugins)[j]).tolerated
                &&& !(audio::model_steps(plugins)[j].action is ConnectPorts)
            },
    decreases plugins.len(),
{
    if plugins.len() > 0 {
        lemma_models_are_needed(plugins.drop_last());
        let before = audio::model_steps(plugins.drop_last());
        let own = audio::plugin_model_steps(plugins.last());
        assert forall|j: int| 0 <= j < audio::model_steps(plugins).len() implies {
            &&& !(#[trigger] audio::model_steps(plugins)[j]).tolerated
            &&& !(audio::model_steps(plugins)[j].action is ConnectPorts)
        } by {
            if j < before.len() {
                assert(audio::model_steps(plugins)[j] == before[j]);
            } else {
                assert(audio::model_steps(plugins)[j] == own[j - before.len()]);
            }
        }
    }
}

/// The plan that loads a rig gives every plugin the model that it has: the preset that is loaded
/// onto its instance is one that the bundle declares which was written and registered just before,
/// for that plugin and with that model. The models come in the order of their plugins, after the
/// connections.
pub proof fn law_rig_loads_every_model(config: ConfigView, p: int)
    requires
        0 <= p < config.plugins.len(),
        config.plugins[p].model is Some,
    ensures
        loads_model_at(
            audio::rig_plan(config),
            (3 + config.plugins.len() + config.connections.len() + 3 * model_count(
                config.plugins.take(p),
            )) as int,
            config.plugins[p],
        ),
{
    let plan = audio::rig_plan(config);
    let models = audio::model_steps(config.plugins);
    let at = 3 + config.plugins.len() + config.connections.len();
    let w = 3 * model_count(config.plugins.take(p)) as int;
    lemma_model_at(config.plugins, p);
    assert(plan[at + w] == models[w]);
    assert(plan[at + w + 1] == models[w + 1]);
    assert(plan[at + w + 2] == models[w + 2]);
}

/// Texts that two bundles have in common: each file of a bundle is the same text but for the URI of
/// the preset, the number of the instance, the URI of the plugin and the path of the model, which
/// stand at the same places.
pub proof fn law_bundles_differ_in_names_only(
    path_a: Seq<char>,
    id_a: u32,
    plugin_a: Seq<char>,
    model_a: Seq<char>,
    path_b: Seq<char>,
    id_b: u32,
    plugin_b: Seq<char>,
    model_b: Seq<char>,
)
    ensures
        exists|x: Seq<char>, y: Seq<char>, z: Seq<char>|
            {
                &&& audio::model_bundle(path_a, id_a, plugin_a, model_a).manifest == #[trigger] (x
                    + audio::model_preset_uri(id_a) + y + plugin_a + z)
                &&& audio::model_bundle(path_b, id_b, plugin_b, model_b).manifest == x
                    + audio::model_preset_uri(id_b) + y + plugin_b + z
            },
        exists|
            u: Seq<char>,
            v: Seq<char>,
            w: Seq<char>,
            x: Seq<char>,
            y: Seq<char>,
            z: Seq<char>,
        |
            {
                &&& audio::model_bundle(path_a, id_a, plugin_a, model_a).presets == #[trigger] (u
                    + audio::model_preset_uri(id_a) + v + text::decimal(id_a as nat) + w + plugin_a
                    + x + plugin_a + y + model_a + z)
                &&& audio::model_bundle(path_b, id_b, plugin_b, model_b).presets == u
                    + audio::model_preset_uri(id_b) + v + text::decimal(id_b as nat) + w + plugin_b
                    + x + plugin_b + y + model_b + z
            },
{
    let x = audio::preset_prefixes() + audio::rdfs_prefix() + "<"@;
    let y = ">\n    a pset:Preset ;\n    lv2:appliesTo <"@;
    let z = "> ;\n    rdfs:seeAlso <presets.ttl> .\n"@;
    let a = audio::model_bundle(path_a, id_a, plugin_a, model_a);
    let b = audio::model_bundle(path_b, id_b, plugin_b, model_b);
    assert(a.manifest == x + audio::model_preset_uri(id_a) + y + plugin_a + z);
    assert(b.manifest == x + audio::model_preset_uri(id_b) + y + plugin_b + z);
    let pu = audio::preset_prefixes() + "@prefix state: <http://lv2plug.in/ns/ext/state#> .\n"@
        + audio::rdfs_prefix() + "<"@;
    let pv = ">\n    a pset:Preset ;\n    rdfs:label \"model-"@;
    let pw = "\" ;\n    lv2:appliesTo <"@;
    let px = "> ;\n    state:state [\n        <"@;
    let py = "#json> <"@;
    let pz = ">\n    ] .\n"@;
    assert(a.presets == pu + audio::model_preset_uri(id_a) + pv + text::decimal(id_a as nat) + pw
        + plugin_a + px + plugin_a + py + model_a + pz);
    assert(b.presets == pu + audio::model_preset_uri(id_b) + pv + text::decimal(id_b as nat) + pw
        + plugin_b + px + plugin_b + py + model_b + pz);
}

} // verus!
