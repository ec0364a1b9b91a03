//! POST /flash: a firmware upload that is written to the boot drive of the controller.
use vstd::prelude::*;

use crate::http;
use crate::http::{HttpReply, ReplyView};
use crate::text;

verus! {

/// Where the boot drive shows up by its label.
pub open spec fn drive_pattern() -> Seq<char> {
    "/dev/disk/by-label/RPI-RP2*"@
}

/// Where the boot drive shows up by its label.
pub fn drive_label_pattern() -> (r: &'static str)
    ensures
        r@ == drive_pattern(),
{
    "/dev/disk/by-label/RPI-RP2*"
}

/// The entry names that a file name pattern means: those that begin with it, stars at its end left
/// out. Entries that could not be read (`None`) are not among them.
pub open spec fn globbed(file_name: Seq<char>, entries: Seq<Option<Seq<char>>>) -> Seq<Seq<char>>
    decreases entries.len(),
{
    if entries.len() == 0 {
        Seq::empty()
    } else {
        let before = globbed(file_name, entries.drop_last());
        match entries.last() {
            Some(name) if text::without_trailing(file_name, '*').is_prefix_of(name) => before.push(
                name,
            ),
            _ => before,
        }
    }
}

/// Finds the entries of a directory that a pattern means. `parent` and `file_name` are the two
/// parts of the pattern's path, where it has them; `entries` are the names in the directory, where
/// it could be read.
pub fn glob(
    parent: Option<&str>,
    file_name: Option<&str>,
    entries: Option<Vec<Option<String>>>,
) -> (r: Result<Vec<String>, ()>)
    ensures
        match (parent, file_name, entries) {
            (Some(_), Some(name), Some(all)) => r matches Ok(found) && found.deep_view() == globbed(
                name@,
                all.deep_view(),
            ),
            _ => r is Err,
        },
{
    match (parent, file_name, entries) {
        (Some(_), Some(name), Some(all)) => {
            let prefix = text::trim_end_matches(name, '*');
            let mut found: Vec<String> = Vec::new();
            let mut i: usize = 0;
            assert(found.deep_view() =~= globbed(name@, all.deep_view().take(0)));
            while i < all.len()
                invariant
                    i <= all.len(),
                    prefix@ == text::without_trailing(name@, '*'),
                    found.deep_view() == globbed(name@, all.deep_view().take(i as int)),
                decreases all.len() - i,
            {
                let ghost upto = all.deep_view().take(i + 1);
                assert(upto.drop_last() =~= all.deep_view().take(i as int));
                assert(upto.last() == all[i as int].deep_view());
                let ghost before = found.deep_view();
                if let Some(entry) = &all[i] {
                    if text::starts_with(entry.as_str(), prefix.as_str()) {
                        found.push(entry.clone());
                        assert(found.deep_view() =~= before.push(entry@));
                    }
                }
                i = i + 1;
            }
            assert(all.deep_view().take(i as int) =~= all.deep_view());
            Ok(found)
        },
        _ => Err(()),
    }
}

/// The first of the entries that resolved.
pub open spec fn first_resolved(entries: Seq<Option<Seq<char>>>) -> Option<Seq<char>>
    decreases entries.len(),
{
    if entries.len() == 0 {
        None
    } else if entries[0] is Some {
        entries[0]
    } else {
        first_resolved(entries.drop_first())
    }
}

/// The boot drive: the first labelled entry that resolves to a device, or else the first of the
/// common device paths that exists.
pub open spec fn found_drive(
    resolved: Seq<Option<Seq<char>>>,
    sda1: bool,
    sdb1: bool,
) -> Option<Seq<char>> {
    match first_resolved(resolved) {
        Some(device) => Some(device),
        None => if sda1 {
            Some("/dev/sda1"@)
        } else if sdb1 {
            Some("/dev/sdb1"@)
        } else {
            None
        },
    }
}

/// Picks the boot drive. `resolved` holds the device behind each labelled entry, `None` where it
/// does not resolve; `sda1` and `sdb1` say whether `/dev/sda1` and `/dev/sdb1` exist.
pub fn pick_drive(resolved: &Vec<Option<String>>, sda1: bool, sdb1: bool) -> (r: Option<String>)
    ensures
        r.deep_view() == found_drive(resolved.deep_view(), sda1, sdb1),
{
    let mut i: usize = 0;
    assert(resolved.deep_view().skip(0) =~= resolved.deep_view());
    while i < resolved.len()
        invariant
            i <= resolved.len(),
            first_resolved(resolved.deep_view()) == first_resolved(
                resolved.deep_view().skip(i as int),
            ),
        decreases resolved.len() - i,
    {
        let ghost rest = resolved.deep_view().skip(i as int);
        assert(rest[0] == resolved[i as int].deep_view());
        assert(rest.drop_first() =~= resolved.deep_view().skip(i + 1));
        if let Some(device) = &resolved[i] {
            return Some(device.clone());
        }
        i = i + 1;
    }
    if sda1 {
        Some("/dev/sda1".to_owned())
    } else if sdb1 {
        Some("/dev/sdb1".to_owned())
    } else {
        None
    }
}

/// How often the boot drive is looked for.
pub const DRIVE_POLLS: u32 = 30;

/// How long to wait after a look that did not find it.
pub const DRIVE_POLL_MILLIS: u64 = 500;

/// The time slept after `misses` looks that did not find the drive.
pub open spec fn slept_millis(misses: int) -> int {
    misses * DRIVE_POLL_MILLIS
}

/// The wait is over after 15 seconds: once it has slept that long there is no further look, and
/// before that there is.
pub proof fn law_wait_is_15_seconds(misses: int)
    ensures
        misses < DRIVE_POLLS <==> slept_millis(misses) < 15_000,
        slept_millis(DRIVE_POLLS as int) == 15_000,
{
}

/// How the mounting of the boot drive ended.
#[derive(Debug)]
pub enum MountResult {
    Mounted,
    /// `mount` reported a failure; holds what it printed on its standard error.
    Refused(Vec<u8>),
    /// `mount` could not be run; holds what the system said.
    NotRun(String),
}

/// What has happened.
#[derive(Debug)]
pub enum FlashEvent {
    /// The form has another field, of this name.
    Field(Option<String>),
    /// The firmware field was read; on failure, holds what was said of it.
    FieldRead(Result<Vec<u8>, String>),
    /// The form has no more fields.
    NoMoreFields,
    /// The boot drive was looked for; this is its device.
    Polled(Option<String>),
    /// The sleep is over.
    Slept,
    /// The mounting ended.
    MountEnded(MountResult),
    /// The firmware was written; on failure, holds what the system said.
    Written(Result<(), String>),
    /// The drive is in sync.
    Synced,
}

/// What is to be done.
#[derive(Debug)]
pub enum FlashAction {
    /// Read the bytes of the field at hand.
    ReadField,
    /// Go to the next field.
    NextField,
    /// Look for the boot drive.
    Poll,
    /// Sleep.
    Sleep { millis: u64 },
    /// Mount the device there, with these options.
    Mount { device: String, dir: String, options: String },
    /// Write the firmware there.
    Write { path: String },
    /// Flush what was written.
    Sync,
    /// Answer the request.
    Reply(HttpReply),
}

/// The model of a [`FlashAction`].
pub enum FlashActionView {
    ReadField,
    NextField,
    Poll,
    Sleep { millis: u64 },
    Mount { device: Seq<char>, dir: Seq<char>, options: Seq<char> },
    Write { path: Seq<char> },
    Sync,
    Reply(ReplyView),
}

impl DeepView for FlashAction {
    type V = FlashActionView;

    open spec fn deep_view(&self) -> FlashActionView {
        match self {
            FlashAction::ReadField => FlashActionView::ReadField,
            FlashAction::NextField => FlashActionView::NextField,
            FlashAction::Poll => FlashActionView::Poll,
            FlashAction::Sleep { millis } => FlashActionView::Sleep { millis: *millis },
            FlashAction::Mount { device, dir, options } => FlashActionView::Mount {
                device: device@,
                dir: dir@,
                options: options@,
            },
            FlashAction::Write { path } => FlashActionView::Write { path: path@ },
            FlashAction::Sync => FlashActionView::Sync,
            FlashAction::Reply(reply) => FlashActionView::Reply(reply.deep_view()),
        }
    }
}

/// Where a request stands.
#[derive(Debug, Clone, Copy, PartialEq, Eq, Structural)]
pub enum FlashStage {
    /// The next field of the form is being waited for.
    Fields,
    /// The firmware field is being read.
    Reading,
    /// The boot drive is being looked for.
    Polling,
    /// The next look is being waited for.
    Sleeping,
    Mounting,
    Writing,
    Syncing,
    /// The request is answered.
    Done,
}

/// The model of a request: where it stands, how many looks did not find the drive, and what the
/// last firmware field held.
pub struct FlashView {
    pub stage: FlashStage,
    pub misses: int,
    pub data: Option<Seq<u8>>,
}

impl FlashView {
    /// There are at most so many looks, and beyond the form there is a firmware.
    pub open spec fn wf(self) -> bool {
        &&& 0 <= self.misses <= DRIVE_POLLS
        &&& self.in_form() ==> self.misses == 0
        &&& self.stage == FlashStage::Polling ==> self.misses < DRIVE_POLLS
        &&& !self.in_form() && self.stage != FlashStage::Done ==> self.data is Some
    }

    /// The form is not over yet.
    pub open spec fn in_form(self) -> bool {
        self.stage == FlashStage::Fields || self.stage == FlashStage::Reading
    }

    /// The event answers what was to be done.
    pub open spec fn accepts(self, event: FlashEvent) -> bool {
        match event {
            FlashEvent::Field(_) => self.stage == FlashStage::Fields,
            FlashEvent::FieldRead(_) => self.stage == FlashStage::Reading,
            FlashEvent::NoMoreFields => self.stage == FlashStage::Fields,
            FlashEvent::Polled(_) => self.stage == FlashStage::Polling,
            FlashEvent::Slept => self.stage == FlashStage::Sleeping,
            FlashEvent::MountEnded(_) => self.stage == FlashStage::Mounting,
            FlashEvent::Written(_) => self.stage == FlashStage::Writing,
            FlashEvent::Synced => self.stage == FlashStage::Syncing,
        }
    }
}

/// The request after an event.
pub open spec fn flash_next(s: FlashView, event: FlashEvent) -> FlashView {
    match event {
        FlashEvent::Field(name) => FlashView {
            stage: if name.deep_view() == Some("firmware"@) {
                FlashStage::Reading
            } else {
                FlashStage::Fields
            },
            ..s
        },
        FlashEvent::FieldRead(Ok(data)) => FlashView {
            stage: FlashStage::Fields,
            data: Some(data@),
            ..s
        },
        FlashEvent::FieldRead(Err(_)) => FlashView { stage: FlashStage::Done, ..s },
        FlashEvent::NoMoreFields => FlashView {
            stage: if s.data is Some {
                FlashStage::Polling
            } else {
                FlashStage::Done
            },
            ..s
        },
        FlashEvent::Polled(Some(_)) => FlashView { stage: FlashStage::Mounting, ..s },
        FlashEvent::Polled(None) => FlashView {
            stage: FlashStage::Sleeping,
            misses: s.misses + 1,
            ..s
        },
        FlashEvent::Slept => FlashView {
            stage: if s.misses < DRIVE_POLLS {
                FlashStage::Polling
            } else {
                FlashStage::Done
            },
            ..s
        },
        FlashEvent::MountEnded(result) => FlashView {
            stage: if result is Mounted {
                FlashStage::Writing
            } else {
                FlashStage::Done
            },
            ..s
        },
        FlashEvent::Written(result) => FlashView {
            stage: if result is Ok {
                FlashStage::Syncing
            } else {
                FlashStage::Done
            },
            ..s
        },
        FlashEvent::Synced => FlashView { stage: FlashStage::Done, ..s },
    }
}

/// An answer that the request failed.
pub open spec fn failure(status: u16, body: Seq<char>) -> FlashActionView {
    FlashActionView::Reply(ReplyView { status, body })
}

/// What is to be done after an event.
pub open spec fn flash_action(s: FlashView, event: FlashEvent) -> FlashActionView {
    match event {
        FlashEvent::Field(name) => if name.deep_view() == Some("firmware"@) {
            FlashActionView::ReadField
        } else {
            FlashActionView::NextField
        },
        FlashEvent::FieldRead(Ok(_)) => FlashActionView::NextField,
        FlashEvent::FieldRead(Err(cause)) => failure(http::BAD_REQUEST, "read error: "@ + cause@),
        FlashEvent::NoMoreFields => if s.data is Some {
            FlashActionView::Poll
        } else {
            failure(http::BAD_REQUEST, "missing 'firmware' file field"@)
        },
        FlashEvent::Polled(Some(device)) => FlashActionView::Mount {
            device: device@,
            dir: "/mnt/uf2"@,
            options: "uid=1000,gid=1000"@,
        },
        FlashEvent::Polled(None) => FlashActionView::Sleep { millis: DRIVE_POLL_MILLIS },
        FlashEvent::Slept => if s.misses < DRIVE_POLLS {
            FlashActionView::Poll
        } else {
            failure(
                http::SERVICE_UNAVAILABLE,
                "UF2 drive not found (is device in bootloader mode?)"@,
            )
        },
        FlashEvent::MountEnded(MountResult::Mounted) => FlashActionView::Write {
            path: "/mnt/uf2/firmware.uf2"@,
        },
        FlashEvent::MountEnded(MountResult::Refused(stderr)) => failure(
            http::INTERNAL_SERVER_ERROR,
            "mount failed: "@ + text::lossy_text(stderr@),
        ),
        FlashEvent::MountEnded(MountResult::NotRun(cause)) => failure(
            http::INTERNAL_SERVER_ERROR,
            "mount failed: "@ + cause@,
        ),
        FlashEvent::Written(Ok(_)) => FlashActionView::Sync,
        FlashEvent::Written(Err(cause)) => failure(
            http::INTERNAL_SERVER_ERROR,
            "write failed: "@ + cause@,
        ),
        FlashEvent::Synced => FlashActionView::Reply(
            ReplyView {
                status: http::OK,
                body: "OK: flashed "@ + text::decimal(s.data->0.len()) + " bytes\n"@,
            },
        ),
    }
}

/// A request to write a firmware. It starts with the form, of which the caller reports the first
/// field.
#[derive(Debug)]
pub struct FlashRequest {
    stage: FlashStage,
    misses: u32,
    data: Option<Vec<u8>>,
}

impl View for FlashRequest {
    type V = FlashView;

    closed spec fn view(&self) -> FlashView {
        FlashView {
            stage: self.stage,
            misses: self.misses as int,
            data: match self.data {
                Some(data) => Some(data@),
                None => None,
            },
        }
    }
}

fn reply(status: u16, body: String) -> (r: FlashAction)
    ensures
        r.deep_view() == FlashActionView::Reply(ReplyView { status, body: body@ }),
{
    FlashAction::Reply(HttpReply { status, body })
}

impl FlashRequest {
    /// A request of which nothing was read.
    pub fn new() -> (r: FlashRequest)
        ensures
            r@ == (FlashView { stage: FlashStage::Fields, misses: 0, data: None }),
            r@.wf(),
    {
        FlashRequest { stage: FlashStage::Fields, misses: 0, data: None }
    }

    /// The firmware, as far as it was read.
    pub fn firmware(&self) -> (r: Option<&Vec<u8>>)
        ensures
            match r {
                Some(data) => self@.data == Some(data@),
                None => self@.data is None,
            },
    {
        match &self.data {
            Some(data) => Some(data),
            None => None,
        }
    }

    /// Where the request stands.
    pub fn stage(&self) -> (r: FlashStage)
        ensures
            r == self@.stage,
    {
        self.stage
    }

    /// Takes up what has happened, and says what is to be done.
    pub fn handle_flash(&mut self, event: FlashEvent) -> (r: FlashAction)
        requires
            old(self)@.wf(),
            old(self)@.accepts(event),
        ensures
            final(self)@ == flash_next(old(self)@, event),
            final(self)@.wf(),
            r.deep_view() == flash_action(old(self)@, event),
    {
        match event {
            FlashEvent::Field(name) => {
                let wanted = match &name {
                    Some(name) => text::same(name.as_str(), "firmware"),
                    None => false,
                };
                if wanted {
                    self.stage = FlashStage::Reading;
                    FlashAction::ReadField
                } else {
                    FlashAction::NextField
                }
            },
            FlashEvent::FieldRead(Ok(data)) => {
                self.stage = FlashStage::Fields;
                self.data = Some(data);
                FlashAction::NextField
            },
            FlashEvent::FieldRead(Err(cause)) => {
                self.stage = FlashStage::Done;
                reply(http::BAD_REQUEST, "read error: ".to_owned().concat(cause.as_str()))
            },
            FlashEvent::NoMoreFields => {
                if self.data.is_some() {
                    self.stage = FlashStage::Polling;
                    FlashAction::Poll
                } else {
                    self.stage = FlashStage::Done;
                    reply(http::BAD_REQUEST, "missing 'firmware' file field".to_owned())
                }
            },
            FlashEvent::Polled(Some(device)) => {
                self.stage = FlashStage::Mounting;
                FlashAction::Mount {
                    device,
                    dir: "/mnt/uf2".to_owned(),
                    options: "uid=1000,gid=1000".to_owned(),
                }
            },
            FlashEvent::Polled(None) => {
                self.stage = FlashStage::Sleeping;
                self.misses = self.misses + 1;
                FlashAction::Sleep { millis: DRIVE_POLL_MILLIS }
            },
            FlashEvent::Slept => {
                if self.misses < DRIVE_POLLS {
                    self.stage = FlashStage::Polling;
                    FlashAction::Poll
                } else {
                    self.stage = FlashStage::Done;
                    reply(
                        http::SERVICE_UNAVAILABLE,
                        "UF2 drive not found (is device in bootloader mode?)".to_owned(),
                    )
                }
            },
            FlashEvent::MountEnded(MountResult::Mounted) => {
                self.stage = FlashStage::Writing;
                FlashAction::Write { path: "/mnt/uf2/firmware.uf2".to_owned() }
            },
            FlashEvent::MountEnded(MountResult::Refused(stderr)) => {
                self.stage = FlashStage::Done;
                reply(
                    http::INTERNAL_SERVER_ERROR,
                    "mount failed: ".to_owned().concat(
                        text::from_utf8_lossy(stderr.as_slice()).as_str(),
                    ),
                )
            },
            FlashEvent::MountEnded(MountResult::NotRun(cause)) => {
                self.stage = FlashStage::Done;
                reply(
                    http::INTERNAL_SERVER_ERROR,
                    "mount failed: ".to_owned().concat(cause.as_str()),
                )
            },
            FlashEvent::Written(Ok(_)) => {
                self.stage = FlashStage::Syncing;
                FlashAction::Sync
            },
            FlashEvent::Written(Err(cause)) => {
                self.stage = FlashStage::Done;
                reply(
                    http::INTERNAL_SERVER_ERROR,
                    "write failed: ".to_owned().concat(cause.as_str()),
                )
            },
            FlashEvent::Synced => {
                self.stage = FlashStage::Done;
                let size: usize = match &self.data {
                    Some(data) => data.len(),
                    None => 0,
                };
                let mut body = "OK: flashed ".to_owned();
                text::push_decimal(&mut body, size as u64);
                body.append(" bytes\n");
                reply(http::OK, body)
            },
        }
    }
}

/// Success is answered only for a firmware that was written to a mounted boot drive: each stage
/// beyond the form is entered only from the one before it, by a success. What is written is the
/// last firmware field of the form, and a request is answered exactly when it ends.
pub proof fn law_flash_order(s: FlashView, event: FlashEvent)
    requires
        s.wf(),
        s.accepts(event),
    ensures
        ({
            let next = flash_next(s, event);
            let action = flash_action(s, event);
            &&& next.wf()
            &&& action is Reply <==> next.stage == FlashStage::Done
            &&& action matches FlashActionView::Reply(reply) ==> (reply.status == http::OK <==> (
            s.stage == FlashStage::Syncing))
            &&& next.stage == FlashStage::Syncing ==> s.stage == FlashStage::Writing && (
            event matches FlashEvent::Written(Ok(_)))
            &&& next.stage == FlashStage::Writing ==> s.stage == FlashStage::Mounting && (
            event matches FlashEvent::MountEnded(MountResult::Mounted))
            &&& next.stage == FlashStage::Mounting ==> s.stage == FlashStage::Polling && (
            event matches FlashEvent::Polled(Some(_)))
            &&& next.stage == FlashStage::Polling ==> s.stage == FlashStage::Fields || s.stage
                == FlashStage::Sleeping
            &&& s.stage != FlashStage::Reading ==> next.data == s.data
            &&& next.stage == FlashStage::Reading ==> (event matches FlashEvent::Field(name)
                && name.deep_view() == Some("firmware"@))
        }),
{
}

/// What a request is after events, one after the other.
pub open spec fn flash_run(s: FlashView, events: Seq<FlashEvent>) -> FlashView
    decreases events.len(),
{
    if events.len() == 0 {
        s
    } else {
        flash_run(flash_next(s, events[0]), events.drop_first())
    }
}

proof fn lemma_firmware_stays(s: FlashView, events: Seq<FlashEvent>)
    requires
        forall|i: int| 0 <= i < events.len() ==> !((#[trigger] events[i]) is FieldRead),
    ensures
        flash_run(s, events).data == s.data,
    decreases events.len(),
{
    if events.len() > 0 {
        let rest = events.drop_first();
        assert(!(events[0] is FieldRead));
        assert forall|i: int| 0 <= i < rest.len() implies !((#[trigger] rest[i]) is FieldRead) by {
            assert(rest[i] == events[i + 1]);
        }
        lemma_firmware_stays(flash_next(s, events[0]), rest);
    }
}

/// The firmware of a request is the bytes of the field that was read last, all of them, however
/// many, and stays so through everything that happens to the request until another field is read.
pub proof fn law_firmware_is_what_was_read(s: FlashView, data: Vec<u8>, events: Seq<FlashEvent>)
    requires
        forall|i: int| 0 <= i < events.len() ==> !((#[trigger] events[i]) is FieldRead),
    ensures
        flash_run(s, seq![FlashEvent::FieldRead(Ok(data))] + events).data == Some(data@),
{
    let all = seq![FlashEvent::FieldRead(Ok(data))] + events;
    assert(all.drop_first() =~= events);
    assert(all[0] == FlashEvent::FieldRead(Ok(data)));
    lemma_firmware_stays(flash_next(s, all[0]), events);
}

/// A field that could not be read leaves the firmware as it was.
pub proof fn law_unreadable_field_changes_nothing(s: FlashView, cause: String)
    ensures
        flash_next(s, FlashEvent::FieldRead(Err(cause))).data == s.data,
        flash_action(s, FlashEvent::FieldRead(Err(cause))) matches FlashActionView::Reply(reply)
            && reply.status == http::BAD_REQUEST && reply.body == "read error: "@ + cause@,
{
}

/// The answer to a firmware that was written tells its size: the number in it reads back as the
/// number of the firmware's bytes.
pub proof fn law_answer_tells_the_size(s: FlashView)
    requires
        s.data is Some,
    ensures
        flash_action(s, FlashEvent::Synced) matches FlashActionView::Reply(reply) && reply.status
            == http::OK && exists|d: Seq<char>|
            reply.body == "OK: flashed "@ + d + " bytes\n"@ && #[trigger] text::natural(d) == Some(
                s.data->0.len(),
            ),
{
    text::law_decimal_reads_back(s.data->0.len());
    assert(text::natural(text::decimal(s.data->0.len())) == Some(s.data->0.len()));
}

/// What is mounted is the device that was found, and what failed is answered with the cause, under
/// the status of a failure on this side.
pub proof fn law_flash_passes_on(s: FlashView, device: String, cause: String, stderr: Vec<u8>)
    ensures
        flash_action(s, FlashEvent::Polled(Some(device))) matches FlashActionView::Mount {
            device: mounted,
            ..
        } && mounted == device@,
        flash_action(
            s,
            FlashEvent::MountEnded(MountResult::NotRun(cause)),
        ) matches FlashActionView::Reply(reply) && reply.status == http::INTERNAL_SERVER_ERROR
            && reply.body == "mount failed: "@ + cause@,
        flash_action(
            s,
            FlashEvent::MountEnded(MountResult::Refused(stderr)),
        ) matches FlashActionView::Reply(reply) && reply.status == http::INTERNAL_SERVER_ERROR
            && reply.body == "mount failed: "@ + text::lossy_text(stderr@),
        flash_action(s, FlashEvent::Written(Err(cause))) matches FlashActionView::Reply(reply)
            && reply.status == http::INTERNAL_SERVER_ERROR && reply.body == "write failed: "@
            + cause@,
{
}

/// Only a field called firmware is read; any other is passed over and changes nothing.
pub proof fn law_only_the_firmware_field_is_read(s: FlashView, name: Option<String>)
    requires
        s.stage == FlashStage::Fields,
    ensures
        ({
            let event = FlashEvent::Field(name);
            if name is Some && name->0@ == "firmware"@ {
                flash_action(s, event) is ReadField
            } else {
                flash_action(s, event) is NextField && flash_next(s, event) == s
            }
        }),
{
}

/// A form without a firmware is refused; with one, the drive is looked for.
pub proof fn law_form_needs_a_firmware(s: FlashView)
    ensures
        s.data is None ==> (flash_action(s, FlashEvent::NoMoreFields) matches FlashActionView::Reply(
            reply,
        ) && reply.status == http::BAD_REQUEST),
        s.data is Some ==> flash_action(s, FlashEvent::NoMoreFields) is Poll,
{
}

/// Each look that does not find the drive counts, and is followed by half a second of sleep; the
/// drive is given up after fifteen seconds of it, and not before.
pub proof fn law_looks_are_counted(s: FlashView)
    requires
        s.wf(),
    ensures
        ({
            let missed = flash_next(s, FlashEvent::Polled(None));
            &&& flash_action(s, FlashEvent::Polled(None)) == (FlashActionView::Sleep { millis: 500 })
            &&& missed.misses == s.misses + 1
            &&& missed.data == s.data
            &&& missed.misses * 500 < 15_000 ==> flash_action(missed, FlashEvent::Slept) is Poll
            &&& missed.misses * 500 >= 15_000 ==> (flash_action(
                missed,
                FlashEvent::Slept,
            ) matches FlashActionView::Reply(reply) && reply.status == http::SERVICE_UNAVAILABLE)
        }),
{
}

/// The entries that a pattern means are looked for one by one: those of two lists are those of the
/// one and then those of the other, and an entry by itself is meant if it could be read and begins
/// with the pattern without the stars at its end.
pub proof fn law_glob_entry_by_entry(
    file_name: Seq<char>,
    a: Seq<Option<Seq<char>>>,
    b: Seq<Option<Seq<char>>>,
    entry: Seq<char>,
)
    ensures
        globbed(file_name, a + b) == globbed(file_name, a) + globbed(file_name, b),
        globbed(file_name, seq![None]) == Seq::<Seq<char>>::empty(),
        globbed(file_name, seq![Some(entry)]) == (if text::without_trailing(
            file_name,
            '*',
        ).is_prefix_of(entry) {
            seq![entry]
        } else {
            Seq::empty()
        }),
    decreases b.len(),
{
    let none: Seq<Option<Seq<char>>> = seq![None];
    assert(none.drop_last() =~= Seq::<Option<Seq<char>>>::empty());
    assert(globbed(file_name, none.drop_last()) == Seq::<Seq<char>>::empty());
    let one = seq![Some(entry)];
    assert(one.drop_last() =~= Seq::<Option<Seq<char>>>::empty());
    assert(globbed(file_name, one.drop_last()) == Seq::<Seq<char>>::empty());
    assert(globbed(file_name, one) =~= if text::without_trailing(file_name, '*').is_prefix_of(
        entry,
    ) {
        seq![entry]
    } else {
        Seq::empty()
    });
    if b.len() == 0 {
        assert(a + b =~= a);
        assert(globbed(file_name, b) =~= Seq::<Seq<char>>::empty());
        assert(globbed(file_name, a) + Seq::<Seq<char>>::empty() =~= globbed(file_name, a));
    } else {
        law_glob_entry_by_entry(file_name, a, b.drop_last(), entry);
        assert((a + b).drop_last() =~= a + b.drop_last());
        assert((a + b).last() == b.last());
        assert(globbed(file_name, a + b) =~= globbed(file_name, a) + globbed(file_name, b));
    }
}

/// The boot drive is the device behind the first labelled entry that resolves. Where none does, it is
/// the first common device path that exists, and where none exists there is no drive.
pub proof fn law_drive_is_the_first(
    before: Seq<Option<Seq<char>>>,
    device: Seq<char>,
    after: Seq<Option<Seq<char>>>,
    sda1: bool,
    sdb1: bool,
)
    requires
        forall|i: int| 0 <= i < before.len() ==> (#[trigger] before[i]) is None,
    ensures
        found_drive(before + seq![Some(device)] + after, sda1, sdb1) == Some(device),
        sda1 ==> found_drive(before, sda1, sdb1) == Some("/dev/sda1"@),
        !sda1 && sdb1 ==> found_drive(before, sda1, sdb1) == Some("/dev/sdb1"@),
        !sda1 && !sdb1 ==> found_drive(before, sda1, sdb1) is None,
    decreases before.len(),
{
    let all = before + seq![Some(device)] + after;
    if before.len() == 0 {
        assert(all[0] == Some(device));
    } else {
        let rest = before.drop_first();
        assert(all[0] == before[0]);
        assert(before[0] is None);
        assert(all.drop_first() =~= rest + seq![Some(device)] + after);
        assert forall|i: int| 0 <= i < rest.len() implies (#[trigger] rest[i]) is None by {
            assert(rest[i] == before[i + 1]);
        }
        law_drive_is_the_first(rest, device, after, sda1, sdb1);
    }
}

} // verus!
