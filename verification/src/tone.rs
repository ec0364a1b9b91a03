//! What a rig sounds like, as far as mod-host was told: which instances are bypassed, and which
//! values their parameters were set to.
use vstd::prelude::*;

use crate::audio;
use crate::audio::{ActionView, ConfigView, EngineView, SnapshotView, StateView, StepView};
use crate::keyed;
use crate::modhost::Number;
use crate::text;

verus! {

/// What mod-host was told of its instances.
#[verifier::ext_equal]
pub struct ToneView {
    pub bypassed: Map<u32, bool>,
    pub params: Map<(u32, Seq<char>), Number>,
}

/// The tone after an action.
pub open spec fn told(tone: ToneView, action: ActionView) -> ToneView {
    match action {
        ActionView::RemoveAll => ToneView { bypassed: Map::empty(), params: Map::empty() },
        ActionView::Bypass { id, bypassed } => ToneView {
            bypassed: tone.bypassed.insert(id, bypassed),
            ..tone
        },
        ActionView::ParamSet { id, symbol, value } => ToneView {
            params: tone.params.insert((id, symbol), value),
            ..tone
        },
        _ => tone,
    }
}

/// The tone after steps that all went through.
pub open spec fn told_all(tone: ToneView, steps: Seq<StepView>) -> ToneView
    decreases steps.len(),
{
    if steps.len() == 0 {
        tone
    } else {
        told(told_all(tone, steps.drop_last()), steps.last().action)
    }
}

/// The instance is bypassed, or active, as told.
pub open spec fn is_told(tone: ToneView, id: u32, bypassed: bool) -> bool {
    tone.bypassed.contains_key(id) && tone.bypassed[id] == bypassed
}

/// The parameter was set to that value.
pub open spec fn is_set(tone: ToneView, id: u32, symbol: Seq<char>, value: Number) -> bool {
    tone.params.contains_key((id, symbol)) && tone.params[(id, symbol)] == value
}

/// The two tones agree on an instance.
pub open spec fn same_instance(a: ToneView, b: ToneView, id: u32) -> bool {
    &&& a.bypassed.contains_key(id) == b.bypassed.contains_key(id)
    &&& a.bypassed.contains_key(id) ==> a.bypassed[id] == b.bypassed[id]
    &&& forall|symbol: Seq<char>|
        #![trigger a.params.contains_key((id, symbol))]
        a.params.contains_key((id, symbol)) == b.params.contains_key((id, symbol)) && (
        a.params.contains_key((id, symbol)) ==> a.params[(id, symbol)] == b.params[(id, symbol)])
}

/// The instance that an entry of a snapshot is about.
pub open spec fn instance_of(key: Seq<char>) -> Option<u32> {
    match text::unsigned_number(key, u32::MAX as nat) {
        Some(n) => Some(n as u32),
        None => None,
    }
}

/// The snapshot has an entry about the instance.
pub open spec fn mentions(snapshot: SnapshotView, id: u32) -> bool {
    exists|i: int|
        0 <= i < snapshot.state.len() && instance_of((#[trigger] snapshot.state[i]).0) == Some(id)
}

proof fn lemma_told_all_concat(tone: ToneView, a: Seq<StepView>, b: Seq<StepView>)
    ensures
        told_all(tone, a + b) == told_all(told_all(tone, a), b),
    decreases b.len(),
{
    if b.len() == 0 {
        assert(a + b =~= a);
    } else {
        lemma_told_all_concat(tone, a, b.drop_last());
        assert((a + b).drop_last() =~= a + b.drop_last());
    }
}

/// Steps that are no bypass, set no parameter and remove nothing leave the tone.
proof fn lemma_told_nothing(tone: ToneView, steps: Seq<StepView>)
    requires
        forall|i: int|
            0 <= i < steps.len() ==> {
                &&& !((#[trigger] steps[i]).action is Bypass)
                &&& !(steps[i].action is ParamSet)
                &&& !(steps[i].action is RemoveAll)
            },
    ensures
        told_all(tone, steps) == tone,
    decreases steps.len(),
{
    if steps.len() > 0 {
        assert(steps.last() == steps[steps.len() - 1]);
        assert forall|i: int| 0 <= i < steps.drop_last().len() implies {
            &&& !((#[trigger] steps.drop_last()[i]).action is Bypass)
            &&& !(steps.drop_last()[i].action is ParamSet)
            &&& !(steps.drop_last()[i].action is RemoveAll)
        } by {
            assert(steps.drop_last()[i] == steps[i]);
        }
        lemma_told_nothing(tone, steps.drop_last());
    }
}

proof fn lemma_params(tone: ToneView, id: u32, params: Seq<(Seq<char>, Number)>)
    requires
        keyed::distinct_keys(params),
    ensures
        told_all(tone, audio::param_steps(id, params)).bypassed == tone.bypassed,
        forall|k: int|
            0 <= k < params.len() ==> is_set(
                told_all(tone, audio::param_steps(id, params)),
                id,
                (#[trigger] params[k]).0,
                params[k].1,
            ),
    decreases params.len(),
{
    if params.len() > 0 {
        let steps = audio::param_steps(id, params);
        let front = params.drop_last();
        assert(steps.drop_last() =~= audio::param_steps(id, front));
        assert(keyed::distinct_keys(front)) by {
            assert forall|i: int, j: int| 0 <= i < j < front.len() implies #[trigger] front[i].0
                != #[trigger] front[j].0 by {
                assert(params[i].0 != params[j].0);
            }
        }
        lemma_params(tone, id, front);
        assert forall|k: int| 0 <= k < params.len() implies is_set(
            told_all(tone, steps),
            id,
            (#[trigger] params[k]).0,
            params[k].1,
        ) by {
            if k < front.len() {
                assert(front[k] == params[k]);
                assert(params[k].0 != params[params.len() - 1].0);
            }
        }
    }
}

proof fn lemma_params_of_another(
    tone: ToneView,
    id: u32,
    params: Seq<(Seq<char>, Number)>,
    other: u32,
)
    requires
        id != other,
    ensures
        same_instance(told_all(tone, audio::param_steps(id, params)), tone, other),
    decreases params.len(),
{
    if params.len() > 0 {
        let steps = audio::param_steps(id, params);
        assert(steps.drop_last() =~= audio::param_steps(id, params.drop_last()));
        lemma_params_of_another(tone, id, params.drop_last(), other);
    }
}

proof fn lemma_bypass_first(tone: ToneView, id: u32, bypassed: bool, rest: Seq<StepView>)
    ensures
        told_all(
            tone,
            seq![audio::must(ActionView::Bypass { id, bypassed })] + rest,
        ) == told_all(
            ToneView { bypassed: tone.bypassed.insert(id, bypassed), ..tone },
            rest,
        ),
{
    let first = seq![audio::must(ActionView::Bypass { id, bypassed })];
    lemma_told_all_concat(tone, first, rest);
    assert(first.drop_last() =~= Seq::<StepView>::empty());
    assert(told_all(tone, first.drop_last()) == tone);
}

/// An entry leaves the other instances as they were.
proof fn lemma_entry_of_another(tone: ToneView, key: Seq<char>, state: StateView, other: u32)
    requires
        instance_of(key) != Some(other),
    ensures
        same_instance(told_all(tone, audio::entry_steps(key, state)), tone, other),
{
    if let Some(id) = instance_of(key) {
        let bypassed = match state.bypassed {
            Some(b) => b,
            None => false,
        };
        lemma_bypass_first(tone, id, bypassed, audio::param_steps(id, state.params));
        lemma_params_of_another(
            ToneView { bypassed: tone.bypassed.insert(id, bypassed), ..tone },
            id,
            state.params,
            other,
        );
    }
}

/// An entry sets its instance.
proof fn lemma_own_entry(tone: ToneView, key: Seq<char>, state: StateView, id: u32)
    requires
        instance_of(key) == Some(id),
        keyed::distinct_keys(state.params),
    ensures
        ({
            let after = told_all(tone, audio::entry_steps(key, state));
            &&& is_told(after, id, state.bypassed == Some(true))
            &&& forall|k: int|
                0 <= k < state.params.len() ==> is_set(
                    after,
                    id,
                    (#[trigger] state.params[k]).0,
                    state.params[k].1,
                )
        }),
{
    let bypassed = match state.bypassed {
        Some(b) => b,
        None => false,
    };
    lemma_bypass_first(tone, id, bypassed, audio::param_steps(id, state.params));
    lemma_params(
        ToneView { bypassed: tone.bypassed.insert(id, bypassed), ..tone },
        id,
        state.params,
    );
}

proof fn lemma_states_of_others(
    tone: ToneView,
    state: Seq<(Seq<char>, StateView)>,
    id: u32,
)
    requires
        forall|i: int|
            0 <= i < state.len() ==> instance_of((#[trigger] state[i]).0) != Some(id),
    ensures
        same_instance(told_all(tone, audio::state_steps(state)), tone, id),
    decreases state.len(),
{
    if state.len() > 0 {
        let front = state.drop_last();
        let before = audio::state_steps(front);
        let own = audio::entry_steps(state.last().0, state.last().1);
        lemma_states_of_others(tone, front, id);
        lemma_told_all_concat(tone, before, own);
        lemma_entry_of_another(told_all(tone, before), state.last().0, state.last().1, id);
    }
}

proof fn lemma_states(tone: ToneView, state: Seq<(Seq<char>, StateView)>, i: int, id: u32)
    requires
        0 <= i < state.len(),
        instance_of(state[i].0) == Some(id),
        keyed::distinct_keys(state[i].1.params),
        forall|j: int|
            0 <= j < state.len() && j != i ==> instance_of((#[trigger] state[j]).0) != Some(id),
    ensures
        ({
            let after = told_all(tone, audio::state_steps(state));
            &&& is_told(after, id, state[i].1.bypassed == Some(true))
            &&& forall|k: int|
                0 <= k < state[i].1.params.len() ==> is_set(
                    after,
                    id,
                    (#[trigger] state[i].1.params[k]).0,
                    state[i].1.params[k].1,
                )
        }),
    decreases state.len(),
{
    let front = state.drop_last();
    let before = audio::state_steps(front);
    let own = audio::entry_steps(state.last().0, state.last().1);
    lemma_told_all_concat(tone, before, own);
    if i == state.len() - 1 {
        lemma_own_entry(told_all(tone, before), state[i].0, state[i].1, id);
    } else {
        assert(front[i] == state[i]);
        lemma_states(tone, front, i, id);
        lemma_entry_of_another(told_all(tone, before), state.last().0, state.last().1, id);
        let mid = told_all(tone, before);
        let after = told_all(tone, audio::state_steps(state));
        assert forall|k: int| 0 <= k < state[i].1.params.len() implies is_set(
            after,
            id,
            (#[trigger] state[i].1.params[k]).0,
            state[i].1.params[k].1,
        ) by {
            assert(is_set(mid, id, state[i].1.params[k].0, state[i].1.params[k].1));
            assert(after.params.contains_key((id, state[i].1.params[k].0)));
        }
    }
}

proof fn lemma_snapshot_is_its_states(tone: ToneView, snapshot: SnapshotView)
    ensures
        told_all(tone, audio::snapshot_plan(snapshot)) == told_all(
            tone,
            audio::state_steps(snapshot.state),
        ),
{
    let plan = audio::snapshot_plan(snapshot);
    assert(plan.drop_last() =~= audio::state_steps(snapshot.state));
}

/// Switching to a snapshot gives the tone that the snapshot describes, whatever was played before
/// and in whatever order its entries stand: an instance that it mentions once is active unless it
/// says otherwise, and has the values of the parameters that it lists.
pub proof fn law_snapshot_sets_the_tone(tone: ToneView, snapshot: SnapshotView, i: int, id: u32)
    requires
        snapshot.wf(),
        0 <= i < snapshot.state.len(),
        instance_of(snapshot.state[i].0) == Some(id),
        forall|j: int|
            0 <= j < snapshot.state.len() && j != i ==> instance_of(
                (#[trigger] snapshot.state[j]).0,
            ) != Some(id),
    ensures
        ({
            let after = told_all(tone, audio::snapshot_plan(snapshot));
            let state = snapshot.state[i].1;
            &&& is_told(after, id, state.bypassed == Some(true))
            &&& forall|k: int|
                0 <= k < state.params.len() ==> is_set(
                    after,
                    id,
                    (#[trigger] state.params[k]).0,
                    state.params[k].1,
                )
        }),
{
    lemma_snapshot_is_its_states(tone, snapshot);
    lemma_states(tone, snapshot.state, i, id);
}

/// Switching to a snapshot leaves the instances that it does not mention as they are.
pub proof fn law_snapshot_leaves_the_rest(tone: ToneView, snapshot: SnapshotView, id: u32)
    requires
        !mentions(snapshot, id),
    ensures
        same_instance(told_all(tone, audio::snapshot_plan(snapshot)), tone, id),
{
    lemma_snapshot_is_its_states(tone, snapshot);
    lemma_states_of_others(tone, snapshot.state, id);
}

proof fn lemma_bypasses(tone: ToneView, plugins: Seq<audio::PluginView>, k: int)
    requires
        0 <= k < plugins.len(),
    ensures
        is_told(told_all(tone, audio::bypass_steps(plugins)), plugins[k].id, true),
    decreases plugins.len(),
{
    let steps = audio::bypass_steps(plugins);
    assert(steps.drop_last() =~= audio::bypass_steps(plugins.drop_last()));
    if k < plugins.len() - 1 {
        lemma_bypasses(tone, plugins.drop_last(), k);
        assert(plugins.drop_last()[k] == plugins[k]);
    }
}

/// Loading the rig leaves every plugin of it bypassed.
pub proof fn law_loaded_rig_is_silent(tone: ToneView, config: ConfigView, k: int)
    requires
        0 <= k < config.plugins.len(),
    ensures
        is_told(told_all(tone, audio::rig_plan(config)), config.plugins[k].id, true),
{
    audio::law_rig_leaves_all_bypassed(config);
    let plan = audio::rig_plan(config);
    let n = config.plugins.len();
    let at = plan.len() - 1 - n;
    let front = plan.take(at);
    let bypasses = audio::bypass_steps(config.plugins);
    let last = seq![audio::must(ActionView::RigLoaded)];
    assert(plan =~= front + bypasses + last) by {
        assert forall|j: int| 0 <= j < plan.len() implies plan[j] == (front + bypasses + last)[j] by {
            if at <= j < plan.len() - 1 {
                assert(plan[plan.len() - 1 - n + (j - at)] == bypasses[j - at]);
            }
        }
    }
    lemma_told_all_concat(tone, front + bypasses, last);
    lemma_told_all_concat(tone, front, bypasses);
    lemma_bypasses(told_all(tone, front), config.plugins, k);
    lemma_told_nothing(told_all(tone, front + bypasses), last);
}

/// Loading the rig starts from nothing: what mod-host was told before makes no difference.
pub proof fn law_rig_starts_from_nothing(a: ToneView, b: ToneView, config: ConfigView)
    ensures
        told_all(a, audio::rig_plan(config)) == told_all(b, audio::rig_plan(config)),
{
    audio::law_rig_leaves_all_bypassed(config);
    let plan = audio::rig_plan(config);
    let first = plan.take(1);
    let rest = plan.skip(1);
    assert(plan =~= first + rest);
    lemma_told_all_concat(a, first, rest);
    lemma_told_all_concat(b, first, rest);
    assert(first.last() == plan[0]);
}

/// The first switch of an engine activates what the snapshot says and nothing else: a plugin that
/// the snapshot does not mention is bypassed.
pub proof fn law_first_switch_activates_nothing_else(
    tone: ToneView,
    engine: EngineView,
    name: Seq<char>,
    k: int,
)
    requires
        !engine.rig_loaded,
        audio::consistent(engine),
        0 <= k < engine.config.plugins.len(),
        audio::snapshot_named(engine.config.snapshots, name) matches Some(snapshot) ==> !mentions(
            snapshot,
            engine.config.plugins[k].id,
        ),
    ensures
        is_told(
            told_all(tone, audio::switch_plan(engine, name)),
            engine.config.plugins[k].id,
            true,
        ),
{
    let rig = audio::rig_plan(engine.config);
    let id = engine.config.plugins[k].id;
    law_loaded_rig_is_silent(tone, engine.config, k);
    match audio::snapshot_named(engine.config.snapshots, name) {
        Some(snapshot) => {
            let own = audio::snapshot_plan(snapshot);
            lemma_told_all_concat(tone, rig, own);
            law_snapshot_leaves_the_rest(told_all(tone, rig), snapshot, id);
        },
        None => {
            assert(audio::switch_plan(engine, name) =~= rig);
        },
    }
}

proof fn lemma_switch_is_rig_and_snapshot(
    tone: ToneView,
    engine: EngineView,
    name: Seq<char>,
    j: int,
)
    requires
        0 <= j < engine.config.snapshots.len(),
        engine.config.snapshots[j].name == name,
        forall|k: int| 0 <= k < j ==> engine.config.snapshots[k].name != name,
        engine.active != Some(name),
    ensures
        ({
            let before = if engine.rig_loaded {
                tone
            } else {
                told_all(tone, audio::rig_plan(engine.config))
            };
            told_all(tone, audio::switch_plan(engine, name)) == told_all(
                before,
                audio::snapshot_plan(engine.config.snapshots[j]),
            )
        }),
{
    audio::lemma_snapshot_position(engine.config.snapshots, name, 0);
    assert(audio::snapshot_position(engine.config.snapshots, name, 0) == j);
    let own = audio::snapshot_plan(engine.config.snapshots[j]);
    if engine.rig_loaded {
        assert(audio::switch_plan(engine, name) =~= own);
    } else {
        lemma_told_all_concat(tone, audio::rig_plan(engine.config), own);
    }
}

/// A switch to a snapshot that is not active plays it, whether the rig was loaded or not and
/// whatever was active before: each instance that the snapshot mentions once is active unless the
/// snapshot says otherwise, and has the values of the parameters that the snapshot lists for it.
/// The snapshot that is meant is the first of that name.
pub proof fn law_switch_plays_the_snapshot(
    tone: ToneView,
    engine: EngineView,
    name: Seq<char>,
    j: int,
    i: int,
    id: u32,
)
    requires
        0 <= j < engine.config.snapshots.len(),
        engine.config.snapshots[j].name == name,
        forall|k: int| 0 <= k < j ==> engine.config.snapshots[k].name != name,
        engine.config.wf(),
        engine.active != Some(name),
        0 <= i < engine.config.snapshots[j].state.len(),
        instance_of(engine.config.snapshots[j].state[i].0) == Some(id),
        forall|k: int|
            0 <= k < engine.config.snapshots[j].state.len() && k != i ==> instance_of(
                (#[trigger] engine.config.snapshots[j].state[k]).0,
            ) != Some(id),
    ensures
        ({
            let after = told_all(tone, audio::switch_plan(engine, name));
            let state = engine.config.snapshots[j].state[i].1;
            &&& is_told(after, id, state.bypassed == Some(true))
            &&& forall|k: int|
                0 <= k < state.params.len() ==> is_set(
                    after,
                    id,
                    (#[trigger] state.params[k]).0,
                    state.params[k].1,
                )
        }),
{
    let snapshot = engine.config.snapshots[j];
    assert(snapshot.wf());
    let before = if engine.rig_loaded {
        tone
    } else {
        told_all(tone, audio::rig_plan(engine.config))
    };
    lemma_switch_is_rig_and_snapshot(tone, engine, name, j);
    law_snapshot_sets_the_tone(before, snapshot, i, id);
}

/// A switch by index to a snapshot that is not active plays the snapshot at that index, as a switch
/// by name does. The snapshot must be the first of its name.
pub proof fn law_switch_by_index_plays_the_snapshot(
    tone: ToneView,
    engine: EngineView,
    j: int,
    i: int,
    id: u32,
)
    requires
        0 <= j < engine.config.snapshots.len(),
        forall|k: int|
            0 <= k < j ==> engine.config.snapshots[k].name != engine.config.snapshots[j].name,
        engine.config.wf(),
        engine.active != Some(engine.config.snapshots[j].name),
        0 <= i < engine.config.snapshots[j].state.len(),
        instance_of(engine.config.snapshots[j].state[i].0) == Some(id),
        forall|k: int|
            0 <= k < engine.config.snapshots[j].state.len() && k != i ==> instance_of(
                (#[trigger] engine.config.snapshots[j].state[k]).0,
            ) != Some(id),
    ensures
        ({
            let after = told_all(tone, audio::index_plan(engine, j));
            let state = engine.config.snapshots[j].state[i].1;
            &&& is_told(after, id, state.bypassed == Some(true))
            &&& forall|k: int|
                0 <= k < state.params.len() ==> is_set(
                    after,
                    id,
                    (#[trigger] state.params[k]).0,
                    state.params[k].1,
                )
        }),
{
    law_switch_plays_the_snapshot(tone, engine, engine.config.snapshots[j].name, j, i, id);
}

/// With the rig loaded, a switch changes nothing of an instance that the snapshot does not mention.
pub proof fn law_switch_leaves_the_rest(
    tone: ToneView,
    engine: EngineView,
    name: Seq<char>,
    id: u32,
)
    requires
        engine.rig_loaded,
        forall|j: int|
            0 <= j < engine.config.snapshots.len() && (#[trigger] engine.config.snapshots[j]).name
                == name ==> !mentions(engine.config.snapshots[j], id),
    ensures
        same_instance(told_all(tone, audio::switch_plan(engine, name)), tone, id),
{
    audio::lemma_snapshot_position(engine.config.snapshots, name, 0);
    let j = audio::snapshot_position(engine.config.snapshots, name, 0);
    if j < engine.config.snapshots.len() && engine.active != Some(name) {
        lemma_switch_is_rig_and_snapshot(tone, engine, name, j);
        law_snapshot_leaves_the_rest(tone, engine.config.snapshots[j], id);
    } else {
        assert(audio::switch_plan(engine, name) =~= Seq::<StepView>::empty());
    }
}

/// The entry about the instance lists the parameter.
pub open spec fn lists_param(snapshot: SnapshotView, id: u32, symbol: Seq<char>) -> bool {
    exists|i: int, k: int|
        0 <= i < snapshot.state.len() && instance_of(snapshot.state[i].0) == Some(id) && 0 <= k
            < snapshot.state[i].1.params.len() && (#[trigger] snapshot.state[i].1.params[k]).0
            == symbol
}

proof fn lemma_unlisted_param(
    tone: ToneView,
    id: u32,
    params: Seq<(Seq<char>, Number)>,
    key: (u32, Seq<char>),
)
    requires
        key.0 == id ==> forall|k: int| 0 <= k < params.len() ==> (#[trigger] params[k]).0 != key.1,
    ensures
        ({
            let after = told_all(tone, audio::param_steps(id, params));
            &&& after.params.contains_key(key) == tone.params.contains_key(key)
            &&& after.params[key] == tone.params[key]
        }),
    decreases params.len(),
{
    if params.len() > 0 {
        let steps = audio::param_steps(id, params);
        assert(steps.drop_last() =~= audio::param_steps(id, params.drop_last()));
        if key.0 == id {
            assert forall|k: int| 0 <= k < params.drop_last().len() implies (
            #[trigger] params.drop_last()[k]).0 != key.1 by {
                assert(params.drop_last()[k] == params[k]);
            }
            assert(params[params.len() - 1].0 != key.1);
        }
        lemma_unlisted_param(tone, id, params.drop_last(), key);
    }
}

proof fn lemma_unlisted_in_states(
    tone: ToneView,
    state: Seq<(Seq<char>, StateView)>,
    id: u32,
    symbol: Seq<char>,
)
    requires
        forall|i: int, k: int|
            0 <= i < state.len() && instance_of(state[i].0) == Some(id) && 0 <= k
                < state[i].1.params.len() ==> (#[trigger] state[i].1.params[k]).0 != symbol,
    ensures
        ({
            let after = told_all(tone, audio::state_steps(state));
            &&& after.params.contains_key((id, symbol)) == tone.params.contains_key((id, symbol))
            &&& after.params[(id, symbol)] == tone.params[(id, symbol)]
        }),
    decreases state.len(),
{
    if state.len() > 0 {
        let front = state.drop_last();
        let before = audio::state_steps(front);
        let (key, own) = state.last();
        assert forall|i: int, k: int|
            0 <= i < front.len() && instance_of(front[i].0) == Some(id) && 0 <= k
                < front[i].1.params.len() implies (#[trigger] front[i].1.params[k]).0 != symbol by {
            assert(front[i] == state[i]);
            assert(state[i].1.params[k].0 != symbol);
        }
        lemma_unlisted_in_states(tone, front, id, symbol);
        lemma_told_all_concat(tone, before, audio::entry_steps(key, own));
        if let Some(n) = instance_of(key) {
            let mid = told_all(tone, before);
            let bypassed = match own.bypassed {
                Some(b) => b,
                None => false,
            };
            lemma_bypass_first(mid, n, bypassed, audio::param_steps(n, own.params));
            if n == id {
                assert forall|k: int| 0 <= k < own.params.len() implies (
                #[trigger] own.params[k]).0 != symbol by {
                    assert(state[state.len() - 1].1.params[k].0 != symbol);
                }
            }
            lemma_unlisted_param(
                ToneView { bypassed: mid.bypassed.insert(n, bypassed), ..mid },
                n,
                own.params,
                (id, symbol),
            );
        }
    }
}

/// A snapshot sets no parameter that it does not list.
pub proof fn law_snapshot_sets_nothing_else(
    tone: ToneView,
    snapshot: SnapshotView,
    id: u32,
    symbol: Seq<char>,
)
    requires
        !lists_param(snapshot, id, symbol),
    ensures
        ({
            let after = told_all(tone, audio::snapshot_plan(snapshot));
            &&& after.params.contains_key((id, symbol)) == tone.params.contains_key((id, symbol))
            &&& after.params[(id, symbol)] == tone.params[(id, symbol)]
        }),
{
    lemma_snapshot_is_its_states(tone, snapshot);
    lemma_unlisted_in_states(tone, snapshot.state, id, symbol);
}

} // verus!
