//! The firmware's system-wide configuration, and how it is put into bytes.
use vstd::prelude::*;

use crate::property_exchange;

verus! {

/// System-wide configuration of the firmware, independent of presets.
#[derive(Debug, Clone, Copy, PartialEq, Eq, Structural)]
pub struct GlobalConfig {
    /// Enable DIN MIDI output for locally-generated messages.
    pub din_enabled: bool,
    /// Route incoming DIN MIDI to USB MIDI out.
    pub din_to_usb_thru: bool,
    /// Route incoming USB MIDI to DIN MIDI out.
    pub usb_to_din_thru: bool,
    /// Route incoming USB MIDI to USB MIDI out (echo).
    pub usb_to_usb_thru: bool,
    /// Enable MIDI Clock output.
    pub midi_clock: bool,
    /// MIDI Clock tempo in BPM.
    pub bpm: u16,
    /// Expression pedal 1 ADC value at heel position.
    pub exp1_min: u16,
    /// Expression pedal 1 ADC value at toe position.
    pub exp1_max: u16,
    /// Expression pedal 2 ADC value at heel position.
    pub exp2_min: u16,
    /// Expression pedal 2 ADC value at toe position.
    pub exp2_max: u16,
}

/// A flag as a byte.
pub open spec fn flag(b: bool) -> u8 {
    if b {
        1
    } else {
        0
    }
}

/// A number in groups of seven bits, the lowest first; all but the last have the top bit set.
pub open spec fn varint(n: nat) -> Seq<u8>
    decreases n,
{
    if n < 0x80 {
        seq![n as u8]
    } else {
        seq![(n % 0x80 + 0x80) as u8] + varint(n / 0x80)
    }
}

/// The flags of a configuration.
pub open spec fn flag_bytes(config: GlobalConfig) -> Seq<u8> {
    seq![
        flag(config.din_enabled),
        flag(config.din_to_usb_thru),
        flag(config.usb_to_din_thru),
        flag(config.usb_to_usb_thru),
        flag(config.midi_clock),
    ]
}

/// The numbers of a configuration.
pub open spec fn number_bytes(config: GlobalConfig) -> Seq<u8> {
    varint(config.bpm as nat) + (varint(config.exp1_min as nat) + (varint(config.exp1_max as nat)
        + (varint(config.exp2_min as nat) + varint(config.exp2_max as nat))))
}

/// A configuration in the firmware's format: its fields in order.
pub open spec fn global_bytes(config: GlobalConfig) -> Seq<u8> {
    flag_bytes(config) + number_bytes(config)
}

/// Serializes a `midi_controller::config::GlobalConfig` with `postcard::to_allocvec`. Trusted: this
/// succeeds, and gives the fields in order, flags as single bytes and numbers as varints. An error
/// would come back as nothing.
#[verifier::external_body]
pub(crate) fn serialize(config: &GlobalConfig) -> (r: Option<Vec<u8>>)
    ensures
        r is Some,
        r->0@ == global_bytes(*config),
{
    postcard::to_allocvec(
        &midi_controller::config::GlobalConfig {
            din_enabled: config.din_enabled,
            din_to_usb_thru: config.din_to_usb_thru,
            usb_to_din_thru: config.usb_to_din_thru,
            usb_to_usb_thru: config.usb_to_usb_thru,
            midi_clock: config.midi_clock,
            bpm: config.bpm,
            exp1_min: config.exp1_min,
            exp1_max: config.exp1_max,
            exp2_min: config.exp2_min,
            exp2_max: config.exp2_max,
        },
    ).ok()
}

proof fn lemma_varint_len(n: nat)
    requires
        n <= u16::MAX,
    ensures
        1 <= varint(n).len() <= 3,
{
    reveal_with_fuel(varint, 3);
}

/// A global configuration fits into a message, whatever it holds.
pub proof fn law_global_config_fits(config: GlobalConfig)
    ensures
        property_exchange::fits(global_bytes(config)),
{
    lemma_varint_len(config.bpm as nat);
    lemma_varint_len(config.exp1_min as nat);
    lemma_varint_len(config.exp1_max as nat);
    lemma_varint_len(config.exp2_min as nat);
    lemma_varint_len(config.exp2_max as nat);
}

proof fn lemma_varint_is_prefix_free(m: nat, n: nat, a: Seq<u8>, b: Seq<u8>)
    requires
        varint(m) + a == varint(n) + b,
    ensures
        m == n,
        a == b,
    decreases m,
{
    let left = varint(m) + a;
    let right = varint(n) + b;
    assert(left[0] == varint(m)[0]);
    assert(right[0] == varint(n)[0]);
    assert(left.skip(1) == right.skip(1));
    if m < 0x80 {
        assert(n < 0x80);
        assert(left.skip(1) =~= a);
        assert(right.skip(1) =~= b);
    } else {
        assert(n >= 0x80);
        assert(left.skip(1) =~= varint(m / 0x80) + a);
        assert(right.skip(1) =~= varint(n / 0x80) + b);
        lemma_varint_is_prefix_free(m / 0x80, n / 0x80, a, b);
    }
}

proof fn lemma_number_bytes(a: GlobalConfig, b: GlobalConfig)
    requires
        number_bytes(a) == number_bytes(b),
    ensures
        a.bpm == b.bpm,
        a.exp1_min == b.exp1_min,
        a.exp1_max == b.exp1_max,
        a.exp2_min == b.exp2_min,
        a.exp2_max == b.exp2_max,
{
    let a4 = varint(a.exp2_max as nat);
    let b4 = varint(b.exp2_max as nat);
    let a3 = varint(a.exp2_min as nat) + a4;
    let b3 = varint(b.exp2_min as nat) + b4;
    let a2 = varint(a.exp1_max as nat) + a3;
    let b2 = varint(b.exp1_max as nat) + b3;
    let a1 = varint(a.exp1_min as nat) + a2;
    let b1 = varint(b.exp1_min as nat) + b2;
    lemma_varint_is_prefix_free(a.bpm as nat, b.bpm as nat, a1, b1);
    lemma_varint_is_prefix_free(a.exp1_min as nat, b.exp1_min as nat, a2, b2);
    lemma_varint_is_prefix_free(a.exp1_max as nat, b.exp1_max as nat, a3, b3);
    lemma_varint_is_prefix_free(a.exp2_min as nat, b.exp2_min as nat, a4, b4);
    let none = Seq::<u8>::empty();
    assert(a4 + none =~= b4 + none);
    lemma_varint_is_prefix_free(a.exp2_max as nat, b.exp2_max as nat, none, none);
}

/// Configurations that differ in anything differ in their bytes.
pub proof fn law_global_bytes_are_injective(a: GlobalConfig, b: GlobalConfig)
    requires
        global_bytes(a) == global_bytes(b),
    ensures
        a == b,
{
    let x = flag_bytes(a);
    let y = flag_bytes(b);
    assert(global_bytes(a).take(5) =~= x);
    assert(global_bytes(b).take(5) =~= y);
    assert(x[0] == y[0] && x[1] == y[1] && x[2] == y[2] && x[3] == y[3] && x[4] == y[4]);
    assert(global_bytes(a).skip(5) =~= number_bytes(a));
    assert(global_bytes(b).skip(5) =~= number_bytes(b));
    lemma_number_bytes(a, b);
}

/// The number that groups of seven bits stand for, the lowest first.
pub open spec fn groups_value(groups: Seq<u8>) -> nat
    decreases groups.len(),
{
    if groups.len() == 0 {
        0
    } else {
        (groups[0] % 0x80) as nat + 0x80 * groups_value(groups.drop_first())
    }
}

/// The groups are those of one number, which is this one: all but the last have the top bit set.
pub open spec fn are_groups_of(groups: Seq<u8>, n: int) -> bool {
    &&& groups.len() > 0
    &&& groups.last() < 0x80
    &&& forall|i: int| 0 <= i < groups.len() - 1 ==> #[trigger] groups[i] >= 0x80
    &&& groups_value(groups) == n
}

proof fn lemma_varint_groups(n: nat)
    ensures
        are_groups_of(varint(n), n as int),
    decreases n,
{
    let groups = varint(n);
    if n < 0x80 {
        assert(groups.drop_first() =~= Seq::<u8>::empty());
        assert(groups_value(groups.drop_first()) == 0);
    } else {
        lemma_varint_groups(n / 0x80);
        let rest = varint(n / 0x80);
        assert(groups.drop_first() =~= rest);
        assert(groups.last() == rest.last());
        assert forall|i: int| 0 <= i < groups.len() - 1 implies #[trigger] groups[i] >= 0x80 by {
            if i > 0 {
                assert(groups[i] == rest[i - 1]);
            }
        }
    }
}

/// The bytes of a configuration tell each of its fields in its place: a byte for each flag, one if
/// it is set and else zero, then the groups of each number.
pub proof fn law_fields_stand_in_order(config: GlobalConfig)
    ensures
        global_bytes(config).len() > 5,
        forall|i: int| 0 <= i < 5 ==> #[trigger] global_bytes(config)[i] <= 1,
        global_bytes(config)[0] == 1 <==> config.din_enabled,
        global_bytes(config)[1] == 1 <==> config.din_to_usb_thru,
        global_bytes(config)[2] == 1 <==> config.usb_to_din_thru,
        global_bytes(config)[3] == 1 <==> config.usb_to_usb_thru,
        global_bytes(config)[4] == 1 <==> config.midi_clock,
        exists|a: Seq<u8>, b: Seq<u8>, c: Seq<u8>, d: Seq<u8>, e: Seq<u8>|
            {
                &&& global_bytes(config).skip(5) == a + b + c + d + e
                &&& #[trigger] are_groups_of(a, config.bpm as int)
                &&& #[trigger] are_groups_of(b, config.exp1_min as int)
                &&& #[trigger] are_groups_of(c, config.exp1_max as int)
                &&& #[trigger] are_groups_of(d, config.exp2_min as int)
                &&& #[trigger] are_groups_of(e, config.exp2_max as int)
            },
{
    lemma_varint_groups(config.bpm as nat);
    lemma_varint_groups(config.exp1_min as nat);
    lemma_varint_groups(config.exp1_max as nat);
    lemma_varint_groups(config.exp2_min as nat);
    lemma_varint_groups(config.exp2_max as nat);
    let a = varint(config.bpm as nat);
    let b = varint(config.exp1_min as nat);
    let c = varint(config.exp1_max as nat);
    let d = varint(config.exp2_min as nat);
    let e = varint(config.exp2_max as nat);
    let bytes = global_bytes(config);
    assert(bytes.take(5) =~= flag_bytes(config));
    assert forall|i: int| 0 <= i < 5 implies #[trigger] bytes[i] == flag_bytes(config)[i] by {}
    assert(bytes.skip(5) =~= a + b + c + d + e);
    assert(are_groups_of(a, config.bpm as int) && are_groups_of(b, config.exp1_min as int)
        && are_groups_of(c, config.exp1_max as int) && are_groups_of(d, config.exp2_min as int)
        && are_groups_of(e, config.exp2_max as int));
}

} // verus!
