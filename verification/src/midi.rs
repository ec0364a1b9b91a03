//! What arrives from the controller: SysEx messages that are put together from fragments, and the
//! channel messages that the audio engine listens to.
use vstd::prelude::*;

verus! {

/// The byte that starts a SysEx message.
pub const SYSEX_START: u8 = 0xF0;

/// The byte that ends a SysEx message.
pub const SYSEX_END: u8 = 0xF7;

/// The model of an assembler that has taken up some bytes: the message in the making, which is
/// empty between messages, and the messages that were completed.
#[verifier::ext_equal]
pub struct SysexView {
    pub pending: Seq<u8>,
    pub messages: Seq<Seq<u8>>,
}

/// One byte more.
pub open spec fn sysex_step(state: SysexView, b: u8) -> SysexView {
    if b == SYSEX_START {
        SysexView { pending: seq![b], messages: state.messages }
    } else if state.pending.len() == 0 {
        state
    } else if b == SYSEX_END {
        SysexView { pending: Seq::empty(), messages: state.messages.push(state.pending.push(b)) }
    } else {
        SysexView { pending: state.pending.push(b), messages: state.messages }
    }
}

/// What becomes of a message in the making when `data` arrives.
pub open spec fn assembled(pending: Seq<u8>, data: Seq<u8>) -> SysexView
    decreases data.len(),
{
    if data.len() == 0 {
        SysexView { pending, messages: Seq::empty() }
    } else {
        sysex_step(assembled(pending, data.drop_last()), data.last())
    }
}

/// Neither the start nor the end of a message is in `s`.
pub open spec fn no_frame_byte(s: Seq<u8>) -> bool {
    forall|i: int| 0 <= i < s.len() ==> #[trigger] s[i] != SYSEX_START && s[i] != SYSEX_END
}

/// A message in the making: nothing, or a start and what may follow it.
pub open spec fn is_partial(s: Seq<u8>) -> bool {
    s.len() == 0 || (s[0] == SYSEX_START && no_frame_byte(s.drop_first()))
}

/// A whole message: a start, an end, and neither of them in between.
pub open spec fn is_sysex(s: Seq<u8>) -> bool {
    s.len() >= 2 && s.last() == SYSEX_END && s[0] == SYSEX_START && no_frame_byte(
        s.subrange(1, s.len() - 1),
    )
}

/// Puts SysEx messages together.
#[derive(Debug)]
pub struct SysexAssembler {
    buf: Vec<u8>,
}

impl View for SysexAssembler {
    type V = Seq<u8>;

    closed spec fn view(&self) -> Seq<u8> {
        self.buf@
    }
}

impl SysexAssembler {
    /// What it holds is a message in the making.
    pub open spec fn wf(&self) -> bool {
        is_partial(self@)
    }

    /// An assembler between messages.
    pub fn new() -> (r: SysexAssembler)
        ensures
            r@ == Seq::<u8>::empty(),
            r.wf(),
    {
        SysexAssembler { buf: Vec::new() }
    }

    /// Takes up `data` and hands out the messages that it completes.
    pub fn push(&mut self, data: &[u8]) -> (r: Vec<Vec<u8>>)
        ensures
            final(self)@ == assembled(old(self)@, data@).pending,
            r.deep_view() == assembled(old(self)@, data@).messages,
            old(self).wf() ==> final(self).wf(),
    {
        let mut messages: Vec<Vec<u8>> = Vec::new();
        let mut i: usize = 0;
        let ghost start = self@;
        assert(messages.deep_view() =~= Seq::<Seq<u8>>::empty());
        assert(data@.take(0) =~= Seq::<u8>::empty());
        while i < data.len()
            invariant
                i <= data.len(),
                self@ == assembled(start, data@.take(i as int)).pending,
                messages.deep_view() == assembled(start, data@.take(i as int)).messages,
            decreases data.len() - i,
        {
            let b = data[i];
            let ghost upto = data@.take(i + 1);
            assert(upto.drop_last() =~= data@.take(i as int));
            assert(upto.last() == b);
            let ghost before = messages.deep_view();
            if b == SYSEX_START {
                let mut fresh: Vec<u8> = Vec::new();
                fresh.push(b);
                self.buf = fresh;
                assert(self@ =~= seq![b]);
            } else if self.buf.len() > 0 {
                self.buf.push(b);
                if b == SYSEX_END {
                    let mut whole: Vec<u8> = Vec::new();
                    whole.append(&mut self.buf);
                    messages.push(whole);
                    assert(messages.deep_view() =~= before.push(whole.deep_view()));
                    assert(whole.deep_view() =~= whole@);
                    assert(self@ =~= Seq::<u8>::empty());
                }
            }
            i = i + 1;
        }
        assert(data@.take(i as int) =~= data@);
        proof {
            if is_partial(start) {
                lemma_assembled_is_framed(start, data@);
            }
        }
        messages
    }
}

proof fn lemma_assembled_is_framed(pending: Seq<u8>, data: Seq<u8>)
    requires
        is_partial(pending),
    ensures
        is_partial(assembled(pending, data).pending),
        forall|i: int|
            0 <= i < assembled(pending, data).messages.len() ==> is_sysex(
                #[trigger] assembled(pending, data).messages[i],
            ),
    decreases data.len(),
{
    if data.len() > 0 {
        lemma_assembled_is_framed(pending, data.drop_last());
        let before = assembled(pending, data.drop_last());
        let b = data.last();
        if b == SYSEX_START {
        } else if before.pending.len() > 0 {
            let grown = before.pending.push(b);
            if b == SYSEX_END {
                assert(grown.subrange(1, grown.len() - 1) =~= before.pending.drop_first());
                assert(is_sysex(grown));
            } else {
                assert(grown.drop_first() =~= before.pending.drop_first().push(b));
            }
        }
    }
}

/// Every message that is handed out is whole: it starts with a start, ends with an end, and has
/// neither of them in between.
pub proof fn law_messages_are_framed(pending: Seq<u8>, data: Seq<u8>)
    requires
        is_partial(pending),
    ensures
        is_partial(assembled(pending, data).pending),
        forall|i: int|
            0 <= i < assembled(pending, data).messages.len() ==> is_sysex(
                #[trigger] assembled(pending, data).messages[i],
            ),
{
    lemma_assembled_is_framed(pending, data);
}

/// How the bytes are cut into pieces makes no difference.
pub proof fn law_fragments(pending: Seq<u8>, a: Seq<u8>, b: Seq<u8>)
    ensures
        ({
            let first = assembled(pending, a);
            let second = assembled(first.pending, b);
            &&& assembled(pending, a + b).pending == second.pending
            &&& assembled(pending, a + b).messages == first.messages + second.messages
        }),
    decreases b.len(),
{
    if b.len() == 0 {
        assert(a + b =~= a);
        assert(assembled(pending, a).messages + Seq::<Seq<u8>>::empty() =~= assembled(
            pending,
            a,
        ).messages);
    } else {
        law_fragments(pending, a, b.drop_last());
        assert((a + b).drop_last() =~= a + b.drop_last());
        let first = assembled(pending, a);
        let second = assembled(first.pending, b.drop_last());
        let whole = assembled(pending, a + b.drop_last());
        assert(sysex_step(whole, b.last()).messages =~= first.messages + sysex_step(
            second,
            b.last(),
        ).messages);
    }
}

proof fn lemma_prefix_of_sysex(pending: Seq<u8>, message: Seq<u8>, k: int)
    requires
        is_sysex(message),
        1 <= k < message.len(),
    ensures
        assembled(pending, message.take(k)) =~= (SysexView {
            pending: message.take(k),
            messages: Seq::empty(),
        }),
    decreases k,
{
    let part = message.take(k);
    assert(part.drop_last() =~= message.take(k - 1));
    assert(part.last() == message[k - 1]);
    if k == 1 {
        assert(part.drop_last() =~= Seq::<u8>::empty());
        assert(assembled(pending, part.drop_last()) == (SysexView {
            pending,
            messages: Seq::empty(),
        }));
        assert(part =~= seq![SYSEX_START]);
    } else {
        lemma_prefix_of_sysex(pending, message, k - 1);
        assert(message.subrange(1, message.len() - 1)[k - 2] == message[k - 1]);
        assert(message.take(k - 1).push(message[k - 1]) =~= part);
    }
}

/// A whole message that is sent arrives as that message and nothing else, whatever was in the
/// making before it.
pub proof fn law_message_arrives(pending: Seq<u8>, message: Seq<u8>)
    requires
        is_sysex(message),
    ensures
        assembled(pending, message) == (SysexView {
            pending: Seq::empty(),
            messages: seq![message],
        }),
{
    let k = message.len() - 1;
    lemma_prefix_of_sysex(pending, message, k);
    assert(message.drop_last() =~= message.take(k));
    assert(message.take(k).push(SYSEX_END) =~= message);
    assert(assembled(pending, message).messages =~= seq![message]);
}

/// A channel message that the audio engine listens to.
#[derive(Debug, Clone, Copy, PartialEq, Eq, Structural)]
pub enum MidiEvent {
    /// Program Change: switch the snapshot.
    ProgramChange { program: u8 },
    /// Control Change: expression pedal routing. The channel counts from 1.
    ControlChange { channel: u8, cc: u8, value: u8 },
}

/// The events in `data` from `i` on. A byte that does not start an event is passed over.
pub open spec fn events_from(data: Seq<u8>, i: int) -> Seq<MidiEvent>
    decreases data.len() - i,
{
    if i < 0 || i >= data.len() {
        Seq::empty()
    } else if 0xC0 <= data[i] <= 0xCF && i + 1 < data.len() {
        seq![MidiEvent::ProgramChange { program: data[i + 1] }] + events_from(data, i + 2)
    } else if 0xB0 <= data[i] <= 0xBF && i + 2 < data.len() {
        seq![
            MidiEvent::ControlChange {
                channel: (data[i] - 0xB0 + 1) as u8,
                cc: data[i + 1],
                value: data[i + 2],
            },
        ] + events_from(data, i + 3)
    } else {
        events_from(data, i + 1)
    }
}

/// Finds the events in what one read of the MIDI input gave.
pub fn scan_events(data: &[u8]) -> (r: Vec<MidiEvent>)
    ensures
        r@ == events_from(data@, 0),
{
    let mut events: Vec<MidiEvent> = Vec::new();
    let mut i: usize = 0;
    while i < data.len()
        invariant
            i <= data.len(),
            events@ + events_from(data@, i as int) =~= events_from(data@, 0),
        decreases data.len() - i,
    {
        let status = data[i];
        if status >= 0xC0 && status <= 0xCF && data.len() - i > 1 {
            events.push(MidiEvent::ProgramChange { program: data[i + 1] });
            i = i + 2;
        } else if status >= 0xB0 && status <= 0xBF && data.len() - i > 2 {
            events.push(
                MidiEvent::ControlChange {
                    channel: status - 0xB0 + 1,
                    cc: data[i + 1],
                    value: data[i + 2],
                },
            );
            i = i + 3;
        } else {
            i = i + 1;
        }
    }
    events
}

/// A channel message as it is sent: the message, and the channel, which counts from 1.
pub struct SentMessage {
    pub event: MidiEvent,
    pub channel: u8,
}

impl SentMessage {
    /// The channel is one of the sixteen, and the event has it too where it has one.
    pub open spec fn wf(self) -> bool {
        &&& 1 <= self.channel <= 16
        &&& self.event matches MidiEvent::ControlChange { channel, .. } ==> channel == self.channel
    }

    /// The bytes of the message.
    pub open spec fn bytes(self) -> Seq<u8> {
        match self.event {
            MidiEvent::ProgramChange { program } => seq![(0xC0 + self.channel - 1) as u8, program],
            MidiEvent::ControlChange { cc, value, .. } => seq![
                (0xB0 + self.channel - 1) as u8,
                cc,
                value,
            ],
        }
    }
}

/// The bytes of messages that follow each other.
pub open spec fn sent_bytes(messages: Seq<SentMessage>) -> Seq<u8>
    decreases messages.len(),
{
    if messages.len() == 0 {
        Seq::empty()
    } else {
        messages[0].bytes() + sent_bytes(messages.drop_first())
    }
}

proof fn lemma_events_after(front: Seq<u8>, messages: Seq<SentMessage>)
    requires
        forall|i: int| 0 <= i < messages.len() ==> (#[trigger] messages[i]).wf(),
    ensures
        events_from(front + sent_bytes(messages), front.len() as int) == Seq::new(
            messages.len(),
            |i: int| messages[i].event,
        ),
    decreases messages.len(),
{
    let data = front + sent_bytes(messages);
    let expected = Seq::new(messages.len(), |i: int| messages[i].event);
    if messages.len() == 0 {
        assert(expected =~= Seq::<MidiEvent>::empty());
    } else {
        let own = messages[0].bytes();
        let rest = messages.drop_first();
        assert(messages[0].wf());
        assert forall|i: int| 0 <= i < rest.len() implies (#[trigger] rest[i]).wf() by {
            assert(rest[i] == messages[i + 1]);
        }
        lemma_events_after(front + own, rest);
        assert(data =~= front + own + sent_bytes(rest));
        let at = front.len() as int;
        assert(data[at] == own[0]);
        assert(data[at + 1] == own[1]);
        if messages[0].event is ControlChange {
            assert(data[at + 2] == own[2]);
        }
        assert(events_from(data, at) == seq![messages[0].event] + events_from(
            data,
            at + own.len(),
        ));
        assert(expected =~= seq![messages[0].event] + Seq::new(
            rest.len(),
            |i: int| rest[i].event,
        ));
    }
}

/// Program Changes and Control Changes that are sent one after the other are all found, in order.
pub proof fn law_sent_messages_are_found(messages: Seq<SentMessage>)
    requires
        forall|i: int| 0 <= i < messages.len() ==> (#[trigger] messages[i]).wf(),
    ensures
        events_from(sent_bytes(messages), 0) == Seq::new(
            messages.len(),
            |i: int| messages[i].event,
        ),
{
    lemma_events_after(Seq::empty(), messages);
    assert(Seq::<u8>::empty() + sent_bytes(messages) =~= sent_bytes(messages));
}

/// What is in `data` between messages, without a start, is passed over.
pub proof fn law_noise_is_passed_over(data: Seq<u8>)
    requires
        !data.contains(SYSEX_START),
    ensures
        assembled(Seq::empty(), data).pending.len() == 0,
        assembled(Seq::empty(), data).messages.len() == 0,
    decreases data.len(),
{
    if data.len() > 0 {
        let front = data.drop_last();
        assert(data.contains(data.last()));
        assert forall|i: int| 0 <= i < front.len() implies front[i] != SYSEX_START by {
            assert(data.contains(data[i]));
        }
        law_noise_is_passed_over(front);
    }
}

/// A message arrives whole out of the middle of a stream, byte for byte and of any length: noise
/// before it and after it, and how all of it is cut, make no difference.
pub proof fn law_message_arrives_out_of_noise(
    noise: Seq<u8>,
    message: Seq<u8>,
    after: Seq<u8>,
    cut: int,
)
    requires
        !noise.contains(SYSEX_START),
        is_sysex(message),
        !after.contains(SYSEX_START),
        0 <= cut <= (noise + message + after).len(),
    ensures
        ({
            let stream = noise + message + after;
            let first = assembled(Seq::empty(), stream.take(cut));
            let second = assembled(first.pending, stream.skip(cut));
            &&& first.messages + second.messages == seq![message]
            &&& second.pending.len() == 0
        }),
{
    let stream = noise + message + after;
    law_noise_is_passed_over(noise);
    let none = assembled(Seq::empty(), noise);
    law_fragments(Seq::empty(), noise, message);
    law_message_arrives(none.pending, message);
    let upto = assembled(Seq::empty(), noise + message);
    assert(upto.messages =~= seq![message]);
    assert(upto.pending =~= Seq::<u8>::empty());
    law_fragments(Seq::empty(), noise + message, after);
    law_noise_is_passed_over(after);
    assert(assembled(Seq::empty(), stream).messages =~= seq![message]);
    law_fragments(Seq::empty(), stream.take(cut), stream.skip(cut));
    assert(stream.take(cut) + stream.skip(cut) =~= stream);
}

proof fn lemma_events_shift(front: Seq<u8>, data: Seq<u8>, i: int)
    requires
        0 <= i <= data.len(),
    ensures
        events_from(front + data, front.len() + i) == events_from(data, i),
    decreases data.len() - i,
{
    let all = front + data;
    if i < data.len() {
        assert(all[front.len() + i] == data[i]);
        if i + 1 < data.len() {
            assert(all[front.len() + i + 1] == data[i + 1]);
            lemma_events_shift(front, data, i + 2);
        }
        if i + 2 < data.len() {
            assert(all[front.len() + i + 2] == data[i + 2]);
            lemma_events_shift(front, data, i + 3);
        }
        lemma_events_shift(front, data, i + 1);
    }
}

/// Bytes that start neither a Program Change nor a Control Change are passed over: what follows them
/// is found as if they were not there.
pub proof fn law_other_bytes_are_passed_over(front: Seq<u8>, data: Seq<u8>)
    requires
        forall|i: int| 0 <= i < front.len() ==> (#[trigger] front[i]) < 0xB0 || front[i] > 0xCF,
    ensures
        events_from(front + data, 0) == events_from(data, 0),
    decreases front.len(),
{
    let all = front + data;
    if front.len() == 0 {
        assert(all =~= data);
    } else {
        let first = seq![front[0]];
        let rest = front.drop_first() + data;
        assert(all =~= first + rest);
        assert(all[0] == front[0]);
        lemma_events_shift(first, rest, 0);
        assert forall|i: int| 0 <= i < front.drop_first().len() implies (
        #[trigger] front.drop_first()[i]) < 0xB0 || front.drop_first()[i] > 0xCF by {
            assert(front.drop_first()[i] == front[i + 1]);
        }
        law_other_bytes_are_passed_over(front.drop_first(), data);
    }
}

/// A message is found with what it says, and what follows it is found after it: a Program Change
/// gives its program, a Control Change its channel, number and value.
#[verifier::rlimit(50)]
pub proof fn law_events_one_by_one(message: SentMessage, data: Seq<u8>)
    requires
        message.wf(),
    ensures
        events_from(message.bytes() + data, 0) == seq![message.event] + events_from(data, 0),
{
    let own = message.bytes();
    let all = own + data;
    lemma_events_shift(own, data, 0);
    assert(all[0] == own[0]);
    assert(all[1] == own[1]);
    if message.event is ControlChange {
        assert(all[2] == own[2]);
    }
}

} // verus!
