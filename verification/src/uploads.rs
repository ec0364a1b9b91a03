//! What is uploaded of a setlist: the messages to the firmware, in order.
use vstd::prelude::*;

use crate::global_config;
use crate::global_config::GlobalConfig;
use crate::midi;
use crate::property_exchange;
use crate::text;

verus! {

/// How many presets the firmware has room for.
pub const MAX_PRESETS: u8 = 32;

/// A preset of a setlist, ready for the firmware.
#[derive(Debug)]
pub struct PresetUpload {
    pub name: String,
    /// The preset in the firmware's format; nothing where it could not be put into that format.
    pub data: Option<Vec<u8>>,
}

/// The model of a [`PresetUpload`].
pub struct PresetView {
    pub name: Seq<char>,
    pub data: Option<Seq<u8>>,
}

/// The bytes of data that may be missing.
pub open spec fn bytes_view(data: Option<Vec<u8>>) -> Option<Seq<u8>> {
    match data {
        Some(bytes) => Some(bytes@),
        None => None,
    }
}

impl DeepView for PresetUpload {
    type V = PresetView;

    open spec fn deep_view(&self) -> PresetView {
        PresetView { name: self.name@, data: bytes_view(self.data) }
    }
}

/// What the bridge needs of a setlist.
#[derive(Debug)]
pub struct Setlist {
    /// The setlist has an audio section.
    pub has_audio: bool,
    /// The firmware's global configuration, where the setlist has one.
    pub global: Option<GlobalConfig>,
    pub presets: Vec<PresetUpload>,
}

/// The model of a [`Setlist`].
pub struct SetlistView {
    pub has_audio: bool,
    pub global: Option<GlobalConfig>,
    pub presets: Seq<PresetView>,
}

impl DeepView for Setlist {
    type V = SetlistView;

    open spec fn deep_view(&self) -> SetlistView {
        SetlistView {
            has_audio: self.has_audio,
            global: self.global,
            presets: self.presets.deep_view(),
        }
    }
}

impl SetlistView {
    /// What can be sent to the firmware: request numbers are bytes, and each preset fits into a
    /// message.
    pub open spec fn sendable(self) -> bool {
        &&& self.presets.len() <= 255
        &&& forall|i: int|
            0 <= i < self.presets.len() ==> ((#[trigger] self.presets[i]).data matches Some(body)
                ==> property_exchange::fits(body))
    }
}

impl Setlist {
    /// Tells whether the presets can be sent to the firmware.
    pub fn is_sendable(&self) -> (r: bool)
        ensures
            r == self.deep_view().sendable(),
    {
        if self.presets.len() > 255 {
            return false;
        }
        let mut i: usize = 0;
        while i < self.presets.len()
            invariant
                i <= self.presets.len() <= 255,
                forall|k: int|
                    0 <= k < i ==> ((#[trigger] self.deep_view().presets[k]).data matches Some(body)
                        ==> property_exchange::fits(body)),
            decreases self.presets.len() - i,
        {
            let preset = &self.presets[i];
            assert(self.deep_view().presets[i as int] == preset.deep_view());
            if let Some(body) = &preset.data {
                if !property_exchange::body_fits(body.as_slice()) {
                    return false;
                }
            }
            i = i + 1;
        }
        true
    }
}

/// One message to the firmware: how long to wait for a reply, what to report of it, and how long
/// to pause then.
#[derive(Debug)]
pub struct Upload {
    pub message: Vec<u8>,
    pub wait_millis: u64,
    pub acked: Option<String>,
    pub missed: Option<String>,
    pub pause_millis: u64,
}

/// The model of an [`Upload`].
pub struct UploadView {
    pub message: Seq<u8>,
    pub wait_millis: u64,
    pub acked: Option<Seq<char>>,
    pub missed: Option<Seq<char>>,
    pub pause_millis: u64,
}

impl DeepView for Upload {
    type V = UploadView;

    open spec fn deep_view(&self) -> UploadView {
        UploadView {
            message: self.message@,
            wait_millis: self.wait_millis,
            acked: self.acked.deep_view(),
            missed: self.missed.deep_view(),
            pause_millis: self.pause_millis,
        }
    }
}

/// The message that sets a resource of the firmware.
pub open spec fn inquiry(req_id: u8, resource: u8, body: Seq<u8>) -> Seq<u8> {
    property_exchange::set_inquiry(
        seq![0x10u8, 0x20, 0x30, 0x40],
        seq![0x01u8, 0x02, 0x03, 0x04],
        req_id,
        resource,
        body,
    )
}

/// The upload of the global configuration, where there is one.
pub open spec fn global_uploads(global: Option<GlobalConfig>) -> Seq<UploadView> {
    match global {
        None => Seq::empty(),
        Some(config) => seq![
            UploadView {
                message: inquiry(0x7F, 0x7F, global_config::global_bytes(config)),
                wait_millis: 5000,
                acked: Some("global: ACK ✓\n"@),
                missed: Some("global: no reply (timeout)\n"@),
                pause_millis: 0,
            },
        ],
    }
}

/// How a preset is called in reports.
pub open spec fn preset_label(index: int, name: Seq<char>) -> Seq<char> {
    "preset "@ + text::decimal(index as nat) + " \""@ + name + "\": "@
}

/// The uploads of the first `n` presets, in order. A preset goes into the slot of its index. In a
/// large setlist the firmware gets time to store each one.
pub open spec fn preset_uploads(presets: Seq<PresetView>, n: int) -> Seq<UploadView>
    decreases n,
{
    if n <= 0 {
        Seq::empty()
    } else {
        let before = preset_uploads(presets, n - 1);
        match presets[n - 1].data {
            None => before,
            Some(body) => before.push(
                UploadView {
                    message: inquiry(n as u8, (n - 1) as u8, body),
                    wait_millis: 5000,
                    acked: Some(preset_label(n - 1, presets[n - 1].name) + "ACK ✓\n"@),
                    missed: Some(
                        preset_label(n - 1, presets[n - 1].name) + "no reply (timeout)\n"@,
                    ),
                    pause_millis: if presets.len() > 4 {
                        250
                    } else {
                        0
                    },
                },
            ),
        }
    }
}

/// The number of slots that `count` presets leave over.
pub open spec fn stale_slots(count: nat) -> nat {
    if count < MAX_PRESETS {
        (MAX_PRESETS - count) as nat
    } else {
        0
    }
}

/// The uploads that clear the slots that `count` presets leave over.
pub open spec fn clear_uploads(count: nat) -> Seq<UploadView> {
    Seq::new(
        stale_slots(count),
        |i: int|
            UploadView {
                message: inquiry((count + i + 1) as u8, (count + i) as u8, Seq::empty()),
                wait_millis: 500,
                acked: None,
                missed: None,
                pause_millis: 0,
            },
    )
}

/// All that is uploaded of a setlist.
pub open spec fn upload_plan(setlist: SetlistView) -> Seq<UploadView> {
    global_uploads(setlist.global) + preset_uploads(
        setlist.presets,
        setlist.presets.len() as int,
    ) + clear_uploads(setlist.presets.len())
}

fn build_inquiry(req_id: u8, resource: u8, body: &[u8]) -> (r: Vec<u8>)
    requires
        property_exchange::fits(body@),
    ensures
        r@ == inquiry(req_id, resource, body@),
{
    let source: [u8; 4] = [0x10, 0x20, 0x30, 0x40];
    let dest: [u8; 4] = [0x01, 0x02, 0x03, 0x04];
    assert(source@ =~= seq![0x10u8, 0x20, 0x30, 0x40]);
    assert(dest@ =~= seq![0x01u8, 0x02, 0x03, 0x04]);
    property_exchange::build_set_inquiry(source, dest, req_id, resource, body)
}

fn push_upload(uploads: &mut Vec<Upload>, upload: Upload)
    ensures
        final(uploads).deep_view() == old(uploads).deep_view().push(upload.deep_view()),
{
    let ghost before = uploads.deep_view();
    uploads.push(upload);
    assert(uploads.deep_view() =~= before.push(upload.deep_view()));
}

fn label_preset(index: usize, name: &str, outcome: &str) -> (r: String)
    ensures
        r@ == preset_label(index as int, name@) + outcome@,
{
    let mut out = "preset ".to_owned();
    text::push_decimal(&mut out, index as u64);
    out.append(" \"");
    out.append(name);
    out.append("\": ");
    out.append(outcome);
    out
}

/// Plans what is uploaded of a setlist.
pub fn plan_uploads(setlist: &Setlist) -> (r: Vec<Upload>)
    requires
        setlist.deep_view().sendable(),
    ensures
        r.deep_view() == upload_plan(setlist.deep_view()),
{
    let mut uploads: Vec<Upload> = Vec::new();
    assert(uploads.deep_view() =~= Seq::<UploadView>::empty());
    if let Some(config) = &setlist.global {
        if let Some(body) = global_config::serialize(config) {
            proof {
                global_config::law_global_config_fits(*config);
            }
            let message = build_inquiry(
                0x7F,
                property_exchange::global_config_resource(),
                body.as_slice(),
            );
            push_upload(
                &mut uploads,
                Upload {
                    message,
                    wait_millis: 5000,
                    acked: Some("global: ACK ✓\n".to_owned()),
                    missed: Some("global: no reply (timeout)\n".to_owned()),
                    pause_millis: 0,
                },
            );
        }
    }
    let ghost global = global_uploads(setlist.deep_view().global);
    assert(uploads.deep_view() =~= global);
    let presets = &setlist.presets;
    let ghost view = presets.deep_view();
    let pause_millis: u64 = if presets.len() > 4 {
        250
    } else {
        0
    };
    let mut i: usize = 0;
    assert(uploads.deep_view() =~= global + preset_uploads(view, 0));
    while i < presets.len()
        invariant
            i <= presets.len() <= 255,
            view == presets.deep_view(),
            view == setlist.deep_view().presets,
            setlist.deep_view().sendable(),
            pause_millis == if view.len() > 4 {
                250u64
            } else {
                0u64
            },
            uploads.deep_view() == global + preset_uploads(view, i as int),
        decreases presets.len() - i,
    {
        let preset = &presets[i];
        assert(view[i as int] == preset.deep_view());
        if let Some(body) = &preset.data {
            assert(setlist.deep_view().presets[i as int].data == Some(body@));
            let slot: u8 = i as u8;
            let message = build_inquiry(slot + 1, slot, body.as_slice());
            push_upload(
                &mut uploads,
                Upload {
                    message,
                    wait_millis: 5000,
                    acked: Some(label_preset(i, preset.name.as_str(), "ACK ✓\n")),
                    missed: Some(label_preset(i, preset.name.as_str(), "no reply (timeout)\n")),
                    pause_millis,
                },
            );
        }
        i = i + 1;
        assert(uploads.deep_view() =~= global + preset_uploads(view, i as int));
    }
    let count: u8 = presets.len() as u8;
    let mut slot: u8 = count;
    let ghost sent = uploads.deep_view();
    let ghost clears = clear_uploads(view.len());
    assert(sent =~= sent + clears.take(0));
    while slot < MAX_PRESETS
        invariant
            count == view.len(),
            count <= slot,
            count < MAX_PRESETS ==> slot <= MAX_PRESETS,
            count >= MAX_PRESETS ==> slot == count,
            clears == clear_uploads(view.len()),
            uploads.deep_view() == sent + clears.take(slot - count),
        decreases MAX_PRESETS - slot,
    {
        let empty: Vec<u8> = Vec::new();
        assert(empty@ =~= Seq::<u8>::empty());
        let message = build_inquiry(slot + 1, slot, empty.as_slice());
        push_upload(
            &mut uploads,
            Upload { message, wait_millis: 500, acked: None, missed: None, pause_millis: 0 },
        );
        slot = slot + 1;
        assert(uploads.deep_view() =~= sent + clears.take(slot - count));
    }
    assert(clears.take(slot - count) =~= clears);
    uploads
}

/// The bytes that a slot of the firmware gets.
pub open spec fn slot_body(presets: Seq<PresetView>, slot: int) -> Seq<u8> {
    if slot < presets.len() && presets[slot].data is Some {
        presets[slot].data->0
    } else {
        Seq::empty()
    }
}

proof fn lemma_preset_uploads(presets: Seq<PresetView>, n: int)
    requires
        0 <= n <= presets.len(),
        forall|i: int| 0 <= i < presets.len() ==> (#[trigger] presets[i]).data is Some,
    ensures
        preset_uploads(presets, n).len() == n,
        forall|i: int|
            0 <= i < n ==> (#[trigger] preset_uploads(presets, n)[i]).message == inquiry(
                (i + 1) as u8,
                i as u8,
                presets[i].data->0,
            ),
    decreases n,
{
    if n > 0 {
        lemma_preset_uploads(presets, n - 1);
        assert(presets[n - 1].data is Some);
    }
}

/// After the global configuration, each of the firmware's slots is written once, in order: with its
/// preset, or with nothing where there is no preset for it. This holds of a setlist that the
/// firmware has room for and of which every preset could be put into the firmware's format.
pub proof fn law_every_slot_is_written_once(setlist: SetlistView)
    requires
        setlist.presets.len() <= MAX_PRESETS,
        forall|i: int|
            0 <= i < setlist.presets.len() ==> (#[trigger] setlist.presets[i]).data is Some,
    ensures
        ({
            let plan = upload_plan(setlist);
            let first = global_uploads(setlist.global).len();
            &&& plan.len() == first + MAX_PRESETS
            &&& forall|slot: int|
                0 <= slot < MAX_PRESETS ==> (#[trigger] plan[first + slot]).message == inquiry(
                    (slot + 1) as u8,
                    slot as u8,
                    slot_body(setlist.presets, slot),
                )
        }),
{
    let plan = upload_plan(setlist);
    let first = global_uploads(setlist.global).len();
    let count = setlist.presets.len();
    lemma_preset_uploads(setlist.presets, count as int);
    assert forall|slot: int| 0 <= slot < MAX_PRESETS implies (
    #[trigger] plan[first + slot]).message == inquiry(
        (slot + 1) as u8,
        slot as u8,
        slot_body(setlist.presets, slot),
    ) by {
        if slot < count {
            assert(setlist.presets[slot].data is Some);
            assert(plan[first + slot] == preset_uploads(setlist.presets, count as int)[slot]);
        } else {
            assert(plan[first + slot] == clear_uploads(count)[slot - count]);
        }
    }
}

proof fn lemma_inquiry_is_sysex(req_id: u8, resource: u8, body: Seq<u8>)
    requires
        req_id < 0x80,
        resource < 0x80,
    ensures
        midi::is_sysex(inquiry(req_id, resource, body)),
{
    property_exchange::law_inquiry_is_sysex(
        seq![0x10u8, 0x20, 0x30, 0x40],
        seq![0x01u8, 0x02, 0x03, 0x04],
        req_id,
        resource,
        body,
    );
}

proof fn lemma_preset_uploads_are_sysex(presets: Seq<PresetView>, n: int)
    requires
        0 <= n <= presets.len(),
        n <= MAX_PRESETS,
    ensures
        forall|i: int|
            0 <= i < preset_uploads(presets, n).len() ==> midi::is_sysex(
                (#[trigger] preset_uploads(presets, n)[i]).message,
            ),
    decreases n,
{
    if n > 0 {
        lemma_preset_uploads_are_sysex(presets, n - 1);
        if let Some(body) = presets[n - 1].data {
            lemma_inquiry_is_sysex(n as u8, (n - 1) as u8, body);
        }
    }
}

/// Every upload of a setlist that the firmware has room for is one SysEx message.
pub proof fn law_uploads_are_sysex(setlist: SetlistView, i: int)
    requires
        setlist.presets.len() <= MAX_PRESETS,
        0 <= i < upload_plan(setlist).len(),
    ensures
        midi::is_sysex(upload_plan(setlist)[i].message),
{
    let plan = upload_plan(setlist);
    let count = setlist.presets.len();
    let global = global_uploads(setlist.global);
    let presets = preset_uploads(setlist.presets, count as int);
    if i < global.len() {
        assert(plan[i] == global[i]);
        lemma_inquiry_is_sysex(0x7F, 0x7F, global_config::global_bytes(setlist.global->0));
    } else if i < global.len() + presets.len() {
        assert(plan[i] == presets[i - global.len()]);
        lemma_preset_uploads_are_sysex(setlist.presets, count as int);
    } else {
        let k = i - global.len() - presets.len();
        assert(plan[i] == clear_uploads(count)[k]);
        lemma_inquiry_is_sysex(
            (count + k + 1) as u8,
            (count + k) as u8,
            Seq::empty(),
        );
    }
}

/// How many of the first `n` presets could be put into the firmware's format.
pub open spec fn encoded_count(presets: Seq<PresetView>, n: int) -> nat
    decreases n,
{
    if n <= 0 {
        0
    } else {
        encoded_count(presets, n - 1) + if presets[n - 1].data is Some {
            1nat
        } else {
            0nat
        }
    }
}

/// The upload sends the bytes to a slot, and waits five seconds for a reply.
pub open spec fn is_upload_to(upload: UploadView, slot: int, body: Seq<u8>) -> bool {
    &&& upload.message == inquiry((slot + 1) as u8, slot as u8, body)
    &&& upload.wait_millis == 5000
}

/// The line begins with the number of the preset and its name, in quotes, and ends as given.
pub open spec fn reports(line: Option<Seq<char>>, index: int, name: Seq<char>, end: Seq<char>) -> bool {
    exists|d: Seq<char>|
        line == Some("preset "@ + d + " \""@ + name + "\": "@ + end) && #[trigger] text::natural(d)
            == Some(index as nat)
}

proof fn lemma_reports(index: int, name: Seq<char>, end: Seq<char>)
    requires
        index >= 0,
    ensures
        reports(Some(preset_label(index, name) + end), index, name, end),
{
    text::law_decimal_reads_back(index as nat);
    let d = text::decimal(index as nat);
    assert(text::natural(d) == Some(index as nat));
    assert(Some(preset_label(index, name) + end) == Some(
        "preset "@ + d + " \""@ + name + "\": "@ + end,
    ));
}

proof fn lemma_presets_in_slots(presets: Seq<PresetView>, n: int, i: int)
    requires
        0 <= i < n <= presets.len(),
        presets[i].data is Some,
    ensures
        ({
            let uploads = preset_uploads(presets, n);
            let at = encoded_count(presets, i) as int;
            &&& uploads.len() == encoded_count(presets, n)
            &&& at < uploads.len()
            &&& is_upload_to(uploads[at], i, presets[i].data->0)
            &&& reports(uploads[at].acked, i, presets[i].name, "ACK ✓\n"@)
            &&& reports(uploads[at].missed, i, presets[i].name, "no reply (timeout)\n"@)
            &&& uploads[at].pause_millis == (if presets.len() > 4 {
                250u64
            } else {
                0u64
            })
        }),
    decreases n,
{
    lemma_upload_count(presets, n - 1);
    if i < n - 1 {
        lemma_presets_in_slots(presets, n - 1, i);
    } else {
        lemma_reports(i, presets[i].name, "ACK ✓\n"@);
        lemma_reports(i, presets[i].name, "no reply (timeout)\n"@);
    }
}

proof fn lemma_upload_count(presets: Seq<PresetView>, n: int)
    ensures
        preset_uploads(presets, n).len() == encoded_count(presets, n),
    decreases n,
{
    if n > 0 {
        lemma_upload_count(presets, n - 1);
    }
}

/// The uploads of a setlist, one by one: the global configuration, where there is one, then each
/// preset that could be encoded, in order and into the slot of its number, with reports that name
/// it, and with a pause in setlists of more than four; then the slots that are left over are
/// cleared, in order, without reports. There are no others.
pub proof fn law_uploads_one_by_one(setlist: SetlistView)
    ensures
        ({
            let plan = upload_plan(setlist);
            let g: int = if setlist.global is Some {
                1
            } else {
                0
            };
            let count = setlist.presets.len() as int;
            let sent = encoded_count(setlist.presets, count) as int;
            let left: int = if count < 32 {
                32 - count
            } else {
                0
            };
            &&& plan.len() == g + sent + left
            &&& setlist.global matches Some(config) ==> {
                &&& plan[0].message == inquiry(0x7F, 0x7F, global_config::global_bytes(config))
                &&& plan[0].wait_millis == 5000
                &&& plan[0].acked == Some("global: ACK ✓\n"@)
                &&& plan[0].missed == Some("global: no reply (timeout)\n"@)
                &&& plan[0].pause_millis == 0
            }
            &&& forall|i: int|
                0 <= i < count && (#[trigger] setlist.presets[i]).data is Some ==> {
                    let upload = plan[g + encoded_count(setlist.presets, i)];
                    &&& encoded_count(setlist.presets, i) < sent
                    &&& is_upload_to(upload, i, setlist.presets[i].data->0)
                    &&& reports(upload.acked, i, setlist.presets[i].name, "ACK ✓\n"@)
                    &&& reports(upload.missed, i, setlist.presets[i].name, "no reply (timeout)\n"@)
                    &&& upload.pause_millis == (if count > 4 {
                        250u64
                    } else {
                        0u64
                    })
                }
            &&& forall|k: int|
                0 <= k < left ==> {
                    let upload = #[trigger] plan[g + sent + k];
                    &&& upload.message == inquiry(
                        (count + k + 1) as u8,
                        (count + k) as u8,
                        Seq::empty(),
                    )
                    &&& upload.wait_millis == 500
                    &&& upload.acked is None
                    &&& upload.missed is None
                    &&& upload.pause_millis == 0
                }
        }),
{
    let plan = upload_plan(setlist);
    let global = global_uploads(setlist.global);
    let count = setlist.presets.len() as int;
    let presets = preset_uploads(setlist.presets, count);
    let clears = clear_uploads(setlist.presets.len());
    let g = global.len() as int;
    let sent = encoded_count(setlist.presets, count) as int;
    lemma_upload_count(setlist.presets, count);
    if setlist.global is Some {
        assert(plan[0] == global[0]);
    }
    assert forall|i: int| 0 <= i < count && (#[trigger] setlist.presets[i]).data is Some implies {
        let upload = plan[g + encoded_count(setlist.presets, i)];
        &&& encoded_count(setlist.presets, i) < sent
        &&& is_upload_to(upload, i, setlist.presets[i].data->0)
        &&& reports(upload.acked, i, setlist.presets[i].name, "ACK ✓\n"@)
        &&& reports(upload.missed, i, setlist.presets[i].name, "no reply (timeout)\n"@)
        &&& upload.pause_millis == (if count > 4 {
            250u64
        } else {
            0u64
        })
    } by {
        lemma_presets_in_slots(setlist.presets, count, i);
        let at = encoded_count(setlist.presets, i) as int;
        assert(plan[g + at] == presets[at]);
    }
    assert forall|k: int| 0 <= k < clears.len() implies #[trigger] plan[g + sent + k] == clears[k] by {}
}

/// A message to the firmware goes from the bridge's address to the firmware's, with the request, the
/// resource, and the encoding of the body between the length of it and the end.
pub proof fn law_inquiry_bytes(req_id: u8, resource: u8, body: Seq<u8>)
    ensures
        ({
            let message = inquiry(req_id, resource, body);
            let encoded = property_exchange::mcoded7(body);
            &&& message.subrange(6, 10) == seq![0x10u8, 0x20, 0x30, 0x40]
            &&& message.subrange(10, 14) == seq![0x01u8, 0x02, 0x03, 0x04]
            &&& message[14] == req_id
            &&& message[17] == resource
            &&& message.len() == 25 + encoded.len()
            &&& message.subrange(24, message.len() - 1) == encoded
            &&& encoded.len() < 0x4000 ==> message[22] + 0x80 * message[23] == encoded.len()
        }),
{
    let message = inquiry(req_id, resource, body);
    let encoded = property_exchange::mcoded7(body);
    assert(message.subrange(6, 10) =~= seq![0x10u8, 0x20, 0x30, 0x40]);
    assert(message.subrange(10, 14) =~= seq![0x01u8, 0x02, 0x03, 0x04]);
    assert(message.subrange(24, message.len() - 1) =~= encoded);
}

/// A setlist can be sent if and only if it has at most 255 presets and the encoding of each of them
/// takes at most 300 bytes of a message.
pub proof fn law_what_can_be_sent(setlist: SetlistView)
    ensures
        setlist.sendable() <==> setlist.presets.len() <= 255 && forall|i: int|
            0 <= i < setlist.presets.len() && (#[trigger] setlist.presets[i]).data is Some
                ==> property_exchange::mcoded7(setlist.presets[i].data->0).len() <= 300,
{
    assert forall|i: int| 0 <= i < setlist.presets.len() implies ((
    #[trigger] setlist.presets[i]).data matches Some(body) ==> (property_exchange::fits(body)
        <==> property_exchange::mcoded7(body).len() <= 300)) by {
        if let Some(body) = setlist.presets[i].data {
            property_exchange::law_what_fits(body);
        }
    }
}

} // verus!
