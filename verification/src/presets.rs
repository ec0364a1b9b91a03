//! The presets of a setlist, as the controller has them.
use vstd::prelude::*;

use crate::uploads;
use crate::uploads::PresetUpload;

verus! {

/// A preset of the controller.
#[verifier::external_type_specification]
#[verifier::external_body]
pub struct ExPreset<const B: usize, const E: usize, const A: usize>(
    midi_controller::config::Preset<B, E, A>,
);

/// What a preset is called.
pub uninterp spec fn preset_name(preset: midi_controller::config::Preset<6, 2, 2>) -> Seq<char>;

/// What `postcard::to_allocvec` makes of a preset: its bytes, or nothing on an error.
pub uninterp spec fn preset_bytes(preset: midi_controller::config::Preset<6, 2, 2>) -> Option<
    Seq<u8>,
>;

/// Reads the field `name` of a preset. Trusted: it is a text that the preset has.
#[verifier::external_body]
fn name_of(preset: &midi_controller::config::Preset<6, 2, 2>) -> (r: String)
    ensures
        r@ == preset_name(*preset),
{
    preset.name.as_str().to_owned()
}

/// Serializes a preset with `postcard::to_allocvec`. Trusted: whether that succeeds, and the bytes,
/// depend on the preset alone. Their layout is not spelled out.
#[verifier::external_body]
fn serialize(preset: &midi_controller::config::Preset<6, 2, 2>) -> (r: Option<Vec<u8>>)
    ensures
        uploads::bytes_view(r) == preset_bytes(*preset),
{
    postcard::to_allocvec(preset).ok()
}

/// Puts presets into the firmware's format.
pub fn encode_presets(presets: &Vec<midi_controller::config::Preset<6, 2, 2>>) -> (r: Vec<
    PresetUpload,
>)
    ensures
        r.deep_view().len() == presets@.len(),
        forall|i: int|
            0 <= i < presets@.len() ==> {
                &&& (#[trigger] r.deep_view()[i]).name == preset_name(presets@[i])
                &&& r.deep_view()[i].data == preset_bytes(presets@[i])
            },
{
    let mut encoded: Vec<PresetUpload> = Vec::new();
    let mut i: usize = 0;
    while i < presets.len()
        invariant
            i <= presets.len(),
            encoded.len() == i,
            forall|k: int|
                0 <= k < i ==> {
                    &&& (#[trigger] encoded[k]).deep_view().name == preset_name(presets@[k])
                    &&& encoded[k].deep_view().data == preset_bytes(presets@[k])
                },
        decreases presets.len() - i,
    {
        encoded.push(PresetUpload { name: name_of(&presets[i]), data: serialize(&presets[i]) });
        i = i + 1;
    }
    encoded
}

} // verus!
