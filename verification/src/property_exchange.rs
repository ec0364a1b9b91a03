//! Messages to the firmware: MIDI-CI Property Exchange, as SysEx.
use vstd::prelude::*;

use crate::midi;

verus! {

/// The top bits of up to seven bytes, the first byte's in the lowest bit.
pub open spec fn high_bits(group: Seq<u8>) -> int
    decreases group.len(),
{
    if group.len() == 0 {
        0
    } else {
        high_bits(group.drop_last()) + if group.last() >= 0x80 {
            vstd::arithmetic::power2::pow2((group.len() - 1) as nat) as int
        } else {
            0
        }
    }
}

/// The bytes without their top bits.
pub open spec fn low_bits(group: Seq<u8>) -> Seq<u8> {
    Seq::new(group.len(), |i: int| (group[i] % 0x80) as u8)
}

/// The mcoded7 encoding: seven bytes become eight of seven bits each, the first of which carries
/// the top bits of the others. The last group may be shorter.
pub open spec fn mcoded7(data: Seq<u8>) -> Seq<u8>
    decreases data.len(),
{
    if data.len() == 0 {
        Seq::empty()
    } else {
        let n: int = if data.len() < 7 {
            data.len() as int
        } else {
            7
        };
        seq![high_bits(data.take(n)) as u8] + low_bits(data.take(n)) + mcoded7(data.skip(n))
    }
}

/// The length of the encoding of `n` bytes.
pub open spec fn mcoded7_len(n: nat) -> nat {
    n + (n + 6) / 7
}

/// The body fits into a message.
pub open spec fn fits(body: Seq<u8>) -> bool {
    mcoded7_len(body.len()) <= 300
}

/// Tells whether a body fits into a message.
pub fn body_fits(body: &[u8]) -> (r: bool)
    ensures
        r == fits(body@),
{
    let n: usize = body.len();
    n <= 300 && n + (n + 6) / 7 <= 300
}

/// A Set Property Inquiry: the universal SysEx header of MIDI-CI, the two MUIDs, the request, a
/// header with the resource, one chunk, and the body with its length in 7-bit bytes.
pub open spec fn set_inquiry(
    source_muid: Seq<u8>,
    dest_muid: Seq<u8>,
    req_id: u8,
    resource: u8,
    body: Seq<u8>,
) -> Seq<u8> {
    let encoded = mcoded7(body);
    seq![0xF0u8, 0x7E, 0x7F, 0x0D, 0x36, 0x02] + source_muid + dest_muid + seq![
        req_id,
        0x01,
        0x00,
        resource,
        0x01,
        0x00,
        0x01,
        0x00,
        (encoded.len() % 0x80) as u8,
        (encoded.len() / 0x80 % 0x80) as u8,
    ] + encoded + seq![0xF7u8]
}

/// Builds a Set Property Inquiry with `midi_controller::property_exchange::build_set_inquiry`.
/// Trusted: the message is laid out as [`set_inquiry`] says. That function encodes the body into a
/// buffer of 300 bytes and panics where the encoding is longer, so such bodies are left out.
#[verifier::external_body]
pub(crate) fn build_set_inquiry(
    source_muid: [u8; 4],
    dest_muid: [u8; 4],
    req_id: u8,
    resource: u8,
    body: &[u8],
) -> (r: Vec<u8>)
    requires
        fits(body@),
    ensures
        r@ == set_inquiry(source_muid@, dest_muid@, req_id, resource, body@),
{
    midi_controller::property_exchange::build_set_inquiry(
        source_muid,
        dest_muid,
        req_id,
        resource,
        body,
    ).to_vec()
}

/// The resource of the global configuration, from
/// `midi_controller::config::GLOBAL_CONFIG_RESOURCE`. Trusted: its value.
#[verifier::external_body]
pub(crate) fn global_config_resource() -> (r: u8)
    ensures
        r == 0x7F,
{
    midi_controller::config::GLOBAL_CONFIG_RESOURCE
}

proof fn lemma_high_bits_bound(group: Seq<u8>)
    ensures
        0 <= high_bits(group) < vstd::arithmetic::power2::pow2(group.len()),
    decreases group.len(),
{
    vstd::arithmetic::power2::lemma2_to64();
    if group.len() > 0 {
        lemma_high_bits_bound(group.drop_last());
        vstd::arithmetic::power2::lemma_pow2_unfold(group.len());
    }
}

proof fn lemma_high_bits_small(group: Seq<u8>)
    requires
        group.len() <= 7,
    ensures
        0 <= high_bits(group) < 0x80,
{
    lemma_high_bits_bound(group);
    vstd::arithmetic::power2::lemma2_to64();
    if group.len() < 7 {
        vstd::arithmetic::power2::lemma_pow2_strictly_increases(group.len(), 7);
    }
}

/// The encoding has the length that it is said to have, and nothing but 7-bit bytes.
pub proof fn law_mcoded7_is_7_bit(data: Seq<u8>)
    ensures
        mcoded7(data).len() == mcoded7_len(data.len()),
        forall|i: int| 0 <= i < mcoded7(data).len() ==> #[trigger] mcoded7(data)[i] < 0x80,
    decreases data.len(),
{
    if data.len() > 0 {
        let n: int = if data.len() < 7 {
            data.len() as int
        } else {
            7
        };
        let group = data.take(n);
        let rest = mcoded7(data.skip(n));
        law_mcoded7_is_7_bit(data.skip(n));
        lemma_high_bits_small(group);
        let head = seq![high_bits(group) as u8];
        assert forall|i: int| 0 <= i < mcoded7(data).len() implies #[trigger] mcoded7(data)[i]
            < 0x80 by {
            if i == 0 {
                assert(mcoded7(data)[0] == head[0]);
            } else if i < 1 + n {
                assert(mcoded7(data)[i] == low_bits(group)[i - 1]);
            } else {
                assert(mcoded7(data)[i] == rest[i - 1 - n]);
            }
        }
    }
}

/// An inquiry between 7-bit addresses, with a 7-bit request and resource, is one SysEx message: it
/// arrives whole at whoever puts SysEx messages together.
pub proof fn law_inquiry_is_sysex(
    source_muid: Seq<u8>,
    dest_muid: Seq<u8>,
    req_id: u8,
    resource: u8,
    body: Seq<u8>,
)
    requires
        source_muid.len() == 4,
        dest_muid.len() == 4,
        forall|i: int| 0 <= i < 4 ==> #[trigger] source_muid[i] < 0x80,
        forall|i: int| 0 <= i < 4 ==> #[trigger] dest_muid[i] < 0x80,
        req_id < 0x80,
        resource < 0x80,
    ensures
        midi::is_sysex(set_inquiry(source_muid, dest_muid, req_id, resource, body)),
{
    let message = set_inquiry(source_muid, dest_muid, req_id, resource, body);
    let encoded = mcoded7(body);
    law_mcoded7_is_7_bit(body);
    let head = seq![0xF0u8, 0x7E, 0x7F, 0x0D, 0x36, 0x02] + source_muid + dest_muid;
    let mid = seq![
        req_id,
        0x01,
        0x00,
        resource,
        0x01,
        0x00,
        0x01,
        0x00,
        (encoded.len() % 0x80) as u8,
        (encoded.len() / 0x80 % 0x80) as u8,
    ];
    let inner = message.subrange(1, message.len() - 1);
    assert(head.len() == 14);
    assert forall|i: int| 0 <= i < inner.len() implies #[trigger] inner[i] != midi::SYSEX_START
        && inner[i] != midi::SYSEX_END by {
        assert(inner[i] == message[i + 1]);
        if i + 1 < 6 {
            assert(message[i + 1] == head[i + 1]);
        } else if i + 1 < 10 {
            assert(message[i + 1] == source_muid[i + 1 - 6]);
        } else if i + 1 < 14 {
            assert(message[i + 1] == dest_muid[i + 1 - 10]);
        } else if i + 1 < 24 {
            assert(message[i + 1] == mid[i + 1 - 14]);
        } else {
            assert(message[i + 1] == encoded[i + 1 - 24]);
        }
    }
}

proof fn lemma_high_bits_injective(a: Seq<u8>, b: Seq<u8>)
    requires
        a.len() == b.len(),
        high_bits(a) == high_bits(b),
    ensures
        forall|i: int| 0 <= i < a.len() ==> ((#[trigger] a[i] >= 0x80) <==> (b[i] >= 0x80)),
    decreases a.len(),
{
    if a.len() > 0 {
        lemma_high_bits_bound(a.drop_last());
        lemma_high_bits_bound(b.drop_last());
        lemma_high_bits_injective(a.drop_last(), b.drop_last());
        assert forall|i: int| 0 <= i < a.len() implies ((#[trigger] a[i] >= 0x80) <==> (b[i]
            >= 0x80)) by {
            if i < a.len() - 1 {
                assert(a[i] == a.drop_last()[i]);
                assert(b[i] == b.drop_last()[i]);
            }
        }
    }
}

/// The encoding loses nothing: different data have different encodings.
pub proof fn law_mcoded7_is_injective(a: Seq<u8>, b: Seq<u8>)
    requires
        mcoded7(a) == mcoded7(b),
    ensures
        a == b,
    decreases a.len(),
{
    law_mcoded7_is_7_bit(a);
    law_mcoded7_is_7_bit(b);
    assert(a.len() == b.len());
    if a.len() > 0 {
        let n: int = if a.len() < 7 {
            a.len() as int
        } else {
            7
        };
        let ga = a.take(n);
        let gb = b.take(n);
        let whole_a = mcoded7(a);
        let whole_b = mcoded7(b);
        assert(whole_a[0] == high_bits(ga) as u8);
        assert(whole_b[0] == high_bits(gb) as u8);
        lemma_high_bits_small(ga);
        lemma_high_bits_small(gb);
        lemma_high_bits_injective(ga, gb);
        assert(whole_a.subrange(1, 1 + n) =~= low_bits(ga));
        assert(whole_b.subrange(1, 1 + n) =~= low_bits(gb));
        assert forall|i: int| 0 <= i < n implies ga[i] == gb[i] by {
            assert(low_bits(ga)[i] == low_bits(gb)[i]);
        }
        assert(ga =~= gb);
        assert(whole_a.skip(1 + n) =~= mcoded7(a.skip(n)));
        assert(whole_b.skip(1 + n) =~= mcoded7(b.skip(n)));
        law_mcoded7_is_injective(a.skip(n), b.skip(n));
        assert(a =~= ga + a.skip(n));
        assert(b =~= gb + b.skip(n));
    }
}

/// A message says what it sets: two inquiries that differ in the request, the resource or the body
/// are different messages.
pub proof fn law_inquiry_is_injective(
    source_muid: Seq<u8>,
    dest_muid: Seq<u8>,
    req_a: u8,
    req_b: u8,
    resource_a: u8,
    resource_b: u8,
    body_a: Seq<u8>,
    body_b: Seq<u8>,
)
    requires
        source_muid.len() == 4,
        dest_muid.len() == 4,
        set_inquiry(source_muid, dest_muid, req_a, resource_a, body_a) == set_inquiry(
            source_muid,
            dest_muid,
            req_b,
            resource_b,
            body_b,
        ),
    ensures
        req_a == req_b,
        resource_a == resource_b,
        body_a == body_b,
{
    let a = set_inquiry(source_muid, dest_muid, req_a, resource_a, body_a);
    let b = set_inquiry(source_muid, dest_muid, req_b, resource_b, body_b);
    assert(a[14] == req_a && b[14] == req_b);
    assert(a[17] == resource_a && b[17] == resource_b);
    assert(a.subrange(24, a.len() - 1) =~= mcoded7(body_a));
    assert(b.subrange(24, b.len() - 1) =~= mcoded7(body_b));
    law_mcoded7_is_injective(body_a, body_b);
}

/// A body fits into a message if and only if its encoding has at most 300 bytes.
pub proof fn law_what_fits(body: Seq<u8>)
    ensures
        fits(body) <==> mcoded7(body).len() <= 300,
{
    law_mcoded7_is_7_bit(body);
}

} // verus!
