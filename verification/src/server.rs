//! What the bridge does on its own: its address, its status line, and how it answers MIDI input
//! and the loss of mod-host.
use vstd::prelude::*;

use crate::audio;
use crate::audio::{CcRoute, Task};
use crate::midi::MidiEvent;
use crate::mode;
use crate::mode::BridgeState;
use crate::modhost::ModHostClient;
use crate::text;

verus! {

/// The address to listen on: one that starts with a colon means all interfaces.
pub open spec fn listen_address(addr: Seq<char>) -> Seq<char> {
    if ":"@.is_prefix_of(addr) {
        "0.0.0.0"@ + addr
    } else {
        addr
    }
}

/// Normalizes a listen address.
pub fn normalize_addr(addr: &str) -> (r: String)
    ensures
        r@ == listen_address(addr@),
{
    if text::starts_with(addr, ":") {
        "0.0.0.0".to_owned().concat(addr)
    } else {
        addr.to_owned()
    }
}

/// The answer of GET /.
pub fn handle_status(version: &str, git_hash: &str) -> (r: String)
    ensures
        r@ == "pedalboard-bridge "@ + version@ + "-"@ + git_hash@ + "\n"@,
{
    "pedalboard-bridge ".to_owned().concat(version).concat("-").concat(git_hash).concat("\n")
}

/// The bridge controls mod-host: it is connected, and MOD UI is not in control.
pub open spec fn in_control(bridge: BridgeState) -> bool {
    !bridge.design_mode && bridge.modhost.linked()
}

/// What a MIDI event asks of the audio engine.
#[derive(Debug)]
pub enum MidiStep {
    /// Nothing.
    Ignore,
    /// Switch the snapshot.
    Switch(Task),
    /// Set a parameter.
    Route(CcRoute),
}

impl BridgeState {
    /// Answers a MIDI event: a Program Change switches to the snapshot of that index, a Control
    /// Change goes to a parameter. Nothing happens while the bridge does not control mod-host, or
    /// without an engine.
    pub fn on_midi_event(&self, event: MidiEvent) -> (r: MidiStep)
        ensures
            match (self.audio_engine, event) {
                (Some(engine), MidiEvent::ProgramChange { program }) if in_control(*self) => {
                    &&& r matches MidiStep::Switch(task)
                    &&& task@ == (audio::TaskView {
                        steps: audio::index_plan(engine@, program as int),
                        done: 0,
                    })
                },
                (Some(engine), MidiEvent::ControlChange { channel, cc, value }) if in_control(
                    *self,
                ) => match audio::cc_route(engine@, channel, cc, value) {
                    Some(route) => r matches MidiStep::Route(to) && to.deep_view() == route,
                    None => r is Ignore,
                },
                _ => r is Ignore,
            },
    {
        if self.design_mode || !self.modhost.is_connected() {
            return MidiStep::Ignore;
        }
        match &self.audio_engine {
            None => MidiStep::Ignore,
            Some(engine) => match event {
                MidiEvent::ProgramChange { program } => MidiStep::Switch(
                    engine.switch_snapshot_by_index(program as usize),
                ),
                MidiEvent::ControlChange { channel, cc, value } => match engine.handle_cc(
                    channel,
                    cc,
                    value,
                ) {
                    Some(route) => MidiStep::Route(route),
                    None => MidiStep::Ignore,
                },
            },
        }
    }

    /// What to do on startup: the switch to the first snapshot, where mod-host was reached.
    pub fn on_start(&self) -> (r: Option<Task>)
        ensures
            mode::task_view(r) == if self.modhost.linked() {
                mode::restore_plan(self.audio_engine)
            } else {
                None
            },
    {
        if self.modhost.is_connected() {
            self.restore()
        } else {
            None
        }
    }

    /// Tells whether to try to reach mod-host again.
    pub fn wants_reconnect(&self) -> (r: bool)
        ensures
            r == (!self.design_mode && !self.modhost.linked()),
    {
        !(self.design_mode || self.modhost.is_connected())
    }

    /// Takes up a connection to mod-host that was made in the background, and plans the switch to
    /// the first snapshot, as [`BridgeState::restore`] does: the rig is not loaded again where it
    /// counts as loaded.
    pub fn on_reconnected(&mut self, client: ModHostClient) -> (r: Option<Task>)
        ensures
            *final(self) == (BridgeState { modhost: client, ..*old(self) }),
            mode::task_view(r) == mode::restore_plan(old(self).audio_engine),
    {
        self.modhost = client;
        self.restore()
    }
}

/// How long to wait between two tries to reach mod-host.
pub const RECONNECT_SECS: u64 = 5;

/// An address that begins with a colon is completed; any other is taken as it is. Either way it ends
/// as it was given.
pub proof fn law_addresses(addr: Seq<char>)
    ensures
        listen_address(seq![':'] + addr) == "0.0.0.0:"@ + addr,
        addr.len() == 0 || addr[0] != ':' ==> listen_address(addr) == addr,
{
    reveal_strlit(":");
    reveal_strlit("0.0.0.0");
    reveal_strlit("0.0.0.0:");
    let short = seq![':'] + addr;
    assert(short.subrange(0, 1) =~= ":"@);
    assert(listen_address(short) =~= "0.0.0.0:"@ + addr);
    if addr.len() > 0 && addr[0] != ':' {
        assert(addr.subrange(0, 1)[0] != ":"@[0]);
    }
}

/// Entering design mode takes the control of mod-host from the bridge, whatever its state, and
/// leaving it gives the control back if and only if mod-host is connected.
pub proof fn law_control(bridge: BridgeState)
    ensures
        !in_control(BridgeState { design_mode: true, ..bridge }),
        in_control(BridgeState { design_mode: false, ..bridge }) <==> bridge.modhost.linked(),
{
}

} // verus!
