//! JACK MIDI auto-connect by alias: reading the listings of `jack_lsp`, and deciding what to
//! connect.
use vstd::prelude::*;

use crate::text;

verus! {

/// A line that describes the port above it.
pub open spec fn is_indented(line: Seq<char>) -> bool {
    line.len() > 0 && (line[0] == ' ' || line[0] == '\t')
}

/// A line with the canonical name of a port: no leading whitespace.
pub open spec fn is_port_line(line: Seq<char>) -> bool {
    line.len() > 0 && !is_indented(line)
}

/// Line `k` is one of the indented lines right below line `h`.
pub open spec fn describes(lines: Seq<Seq<char>>, h: int, k: int) -> bool {
    h < k < lines.len() && forall|j: int| h < j <= k ==> is_indented(#[trigger] lines[j])
}

/// The line gives the type of a MIDI port.
pub open spec fn is_midi_type(line: Seq<char>) -> bool {
    line.len() > 0 && line[0] == '\t' && text::trimmed(line) == "8 bit raw midi"@
}

/// The line gives an alias that, in lower case, has `pattern` in it.
pub open spec fn is_matching_alias(line: Seq<char>, pattern: Seq<char>) -> bool {
    line.len() > 0 && line[0] == ' ' && text::has_part(
        text::lowercase(text::trimmed(line)),
        pattern,
    )
}

/// Line `h` names a MIDI port that has an alias with `pattern` in it.
pub open spec fn is_matching_port(lines: Seq<Seq<char>>, h: int, pattern: Seq<char>) -> bool {
    &&& is_port_line(lines[h])
    &&& exists|k: int| #[trigger] describes(lines, h, k) && is_midi_type(lines[k])
    &&& exists|k: int| #[trigger] describes(lines, h, k) && is_matching_alias(lines[k], pattern)
}

/// The port of this name takes what the device sends.
pub open spec fn is_capture(name: Seq<char>) -> bool {
    text::has_part(name, "capture"@)
}

/// The port of this name feeds the device.
pub open spec fn is_playback(name: Seq<char>) -> bool {
    !is_capture(name) && text::has_part(name, "playback"@)
}

/// The name of the last matching capture port among the first `n` lines, or nothing.
pub open spec fn last_capture(lines: Seq<Seq<char>>, n: int, pattern: Seq<char>) -> Seq<char>
    decreases n,
{
    if n <= 0 {
        Seq::empty()
    } else if is_matching_port(lines, n - 1, pattern) && is_capture(text::trimmed(lines[n - 1])) {
        text::trimmed(lines[n - 1])
    } else {
        last_capture(lines, n - 1, pattern)
    }
}

/// The name of the last matching playback port among the first `n` lines, or nothing.
pub open spec fn last_playback(lines: Seq<Seq<char>>, n: int, pattern: Seq<char>) -> Seq<char>
    decreases n,
{
    if n <= 0 {
        Seq::empty()
    } else if is_matching_port(lines, n - 1, pattern) && is_playback(text::trimmed(lines[n - 1])) {
        text::trimmed(lines[n - 1])
    } else {
        last_playback(lines, n - 1, pattern)
    }
}

/// The capture port and the playback port of a device; empty where there is none.
#[derive(Debug)]
pub struct Ports {
    pub capture: String,
    pub playback: String,
}

/// The ports are those that the listing has for `pattern`.
pub open spec fn ports_of_listing(ports: Ports, listing: Seq<char>, pattern: Seq<char>) -> bool {
    let lines = text::lines_of(listing);
    &&& ports.capture@ == last_capture(lines, lines.len() as int, pattern)
    &&& ports.playback@ == last_playback(lines, lines.len() as int, pattern)
}

proof fn lemma_indented_lines_do_not_match(
    lines: Seq<Seq<char>>,
    from: int,
    to: int,
    pattern: Seq<char>,
)
    requires
        0 <= from <= to <= lines.len(),
        forall|j: int| from <= j < to ==> !is_port_line(#[trigger] lines[j]),
    ensures
        last_capture(lines, to, pattern) == last_capture(lines, from, pattern),
        last_playback(lines, to, pattern) == last_playback(lines, from, pattern),
    decreases to - from,
{
    if from < to {
        assert(!is_port_line(lines[to - 1]));
        lemma_indented_lines_do_not_match(lines, from, to - 1, pattern);
    }
}

fn indented(line: &Vec<char>) -> (r: bool)
    ensures
        r == is_indented(line@),
{
    line.len() > 0 && (line[0] == ' ' || line[0] == '\t')
}

/// What the lines below a port say of it.
struct PortBlock {
    end: usize,
    is_midi: bool,
    matched: bool,
}

fn read_block(lines: &Vec<String>, h: usize, pattern: &str) -> (r: PortBlock)
    requires
        h < lines.len(),
        is_port_line(lines.deep_view()[h as int]),
    ensures
        h < r.end <= lines.len(),
        forall|j: int| h < j < r.end ==> !is_port_line(#[trigger] lines.deep_view()[j]),
        (r.is_midi && r.matched) == is_matching_port(lines.deep_view(), h as int, pattern@),
{
    let ghost view = lines.deep_view();
    let mut i: usize = h + 1;
    let mut is_midi = false;
    let mut matched = false;
    while i < lines.len()
        invariant_except_break
            h < i <= lines.len(),
        invariant
            h < i <= lines.len(),
            view == lines.deep_view(),
            forall|j: int| h < j < i ==> is_indented(#[trigger] view[j]),
            is_midi == exists|k: int| h < k < i && is_midi_type(#[trigger] view[k]),
            matched == exists|k: int| h < k < i && is_matching_alias(#[trigger] view[k], pattern@),
        ensures
            i < lines.len() ==> !is_indented(view[i as int]),
        decreases lines.len() - i,
    {
        let line = text::chars_of(lines[i].as_str());
        assert(view[i as int] == line@);
        if !indented(&line) {
            break;
        }
        let trimmed = text::trim(lines[i].as_str());
        if line[0] == '\t' {
            if text::same(trimmed.as_str(), "8 bit raw midi") {
                assert(is_midi_type(view[i as int]));
                is_midi = true;
            }
        } else {
            let alias = text::to_lowercase(trimmed.as_str());
            if text::contains(alias.as_str(), pattern) {
                assert(is_matching_alias(view[i as int], pattern@));
                matched = true;
            }
        }
        i = i + 1;
    }
    proof {
        assert forall|k: int| #[trigger] describes(view, h as int, k) <==> h < k < i by {
            if describes(view, h as int, k) && k >= i {
                assert(is_indented(view[i as int]));
            }
        }
        if is_midi {
            let k = choose|k: int| h < k < i && is_midi_type(#[trigger] view[k]);
            assert(describes(view, h as int, k));
        }
        if matched {
            let k = choose|k: int| h < k < i && is_matching_alias(#[trigger] view[k], pattern@);
            assert(describes(view, h as int, k));
        }
    }
    PortBlock { end: i, is_midi, matched }
}

/// Finds the MIDI ports of a device in the listing of all ports with their aliases and types.
/// `pattern` is to be in lower case.
pub fn ports_in_listing(listing: &str, pattern: &str) -> (r: Ports)
    ensures
        ports_of_listing(r, listing@, pattern@),
{
    let lines = text::lines(listing);
    let ghost view = lines.deep_view();
    let mut capture = String::new();
    let mut playback = String::new();
    let mut i: usize = 0;
    while i < lines.len()
        invariant
            i <= lines.len(),
            view == lines.deep_view(),
            view == text::lines_of(listing@),
            capture@ == last_capture(view, i as int, pattern@),
            playback@ == last_playback(view, i as int, pattern@),
        decreases lines.len() - i,
    {
        let line = text::chars_of(lines[i].as_str());
        assert(view[i as int] == line@);
        if line.len() == 0 || indented(&line) {
            i = i + 1;
            continue;
        }
        let name = text::trim(lines[i].as_str());
        let block = read_block(&lines, i, pattern);
        if block.is_midi && block.matched {
            if text::contains(name.as_str(), "capture") {
                capture = name;
            } else if text::contains(name.as_str(), "playback") {
                playback = name;
            }
        }
        proof {
            assert(capture@ == last_capture(view, i + 1, pattern@));
            assert(playback@ == last_playback(view, i + 1, pattern@));
            lemma_indented_lines_do_not_match(view, i + 1, block.end as int, pattern@);
        }
        i = block.end;
    }
    Ports { capture, playback }
}

/// Finds the MIDI ports of a device by alias, in what `jack_lsp -A -t` printed, or none where it
/// could not be run.
pub fn find_ports_by_alias(stdout: &Option<Vec<u8>>, pattern: &str) -> (r: Ports)
    ensures
        match stdout {
            Some(bytes) => {
                &&& ports_of_listing(r, text::lossy_text(bytes@), pattern@)
                &&& vstd::utf8::valid_utf8(bytes@) ==> ports_of_listing(
                    r,
                    vstd::utf8::decode_utf8(bytes@),
                    pattern@,
                )
            },
            None => r.capture@.len() == 0 && r.playback@.len() == 0,
        },
{
    match stdout {
        Some(bytes) => {
            let listing = text::from_utf8_lossy(bytes.as_slice());
            ports_in_listing(listing.as_str(), pattern)
        },
        None => Ports { capture: String::new(), playback: String::new() },
    }
}

/// The listing has a line with that name and nothing else but white space.
pub open spec fn lists_port(listing: Seq<char>, name: Seq<char>) -> bool {
    exists|i: int|
        0 <= i < text::lines_of(listing).len() && text::trimmed(
            #[trigger] text::lines_of(listing)[i],
        ) == name
}

/// Line `h` names a matching capture port called `name`.
pub open spec fn names_capture(
    lines: Seq<Seq<char>>,
    h: int,
    pattern: Seq<char>,
    name: Seq<char>,
) -> bool {
    0 <= h < lines.len() && is_matching_port(lines, h, pattern) && text::trimmed(lines[h]) == name
        && is_capture(name)
}

/// Line `h` names a matching playback port called `name`.
pub open spec fn names_playback(
    lines: Seq<Seq<char>>,
    h: int,
    pattern: Seq<char>,
    name: Seq<char>,
) -> bool {
    0 <= h < lines.len() && is_matching_port(lines, h, pattern) && text::trimmed(lines[h]) == name
        && is_playback(name)
}

proof fn lemma_named_port(name: Seq<char>)
    ensures
        is_capture(name) ==> name.len() > 0,
        is_playback(name) ==> name.len() > 0,
{
    reveal_strlit("capture");
    reveal_strlit("playback");
}

proof fn lemma_last_capture(lines: Seq<Seq<char>>, n: int, pattern: Seq<char>)
    requires
        0 <= n <= lines.len(),
    ensures
        ({
            let name = last_capture(lines, n, pattern);
            if name.len() > 0 {
                exists|h: int| names_capture(lines, h, pattern, name)
            } else {
                forall|h: int, other: Seq<char>|
                    h < n ==> !#[trigger] names_capture(lines, h, pattern, other)
            }
        }),
    decreases n,
{
    if n > 0 {
        lemma_last_capture(lines, n - 1, pattern);
        let own = text::trimmed(lines[n - 1]);
        lemma_named_port(own);
        if is_matching_port(lines, n - 1, pattern) && is_capture(own) {
            assert(names_capture(lines, n - 1, pattern, own));
        }
    }
}

proof fn lemma_last_playback(lines: Seq<Seq<char>>, n: int, pattern: Seq<char>)
    requires
        0 <= n <= lines.len(),
    ensures
        ({
            let name = last_playback(lines, n, pattern);
            if name.len() > 0 {
                exists|h: int| names_playback(lines, h, pattern, name)
            } else {
                forall|h: int, other: Seq<char>|
                    h < n ==> !#[trigger] names_playback(lines, h, pattern, other)
            }
        }),
    decreases n,
{
    if n > 0 {
        lemma_last_playback(lines, n - 1, pattern);
        let own = text::trimmed(lines[n - 1]);
        lemma_named_port(own);
        if is_matching_port(lines, n - 1, pattern) && is_playback(own) {
            assert(names_playback(lines, n - 1, pattern, own));
        }
    }
}

/// The ports that are found are listed MIDI ports with a matching alias, of the right direction;
/// and where none is found, the listing has none.
pub proof fn law_found_ports_are_listed(ports: Ports, listing: Seq<char>, pattern: Seq<char>)
    requires
        ports_of_listing(ports, listing, pattern),
    ensures
        ({
            let lines = text::lines_of(listing);
            &&& if ports.capture@.len() > 0 {
                &&& exists|h: int| names_capture(lines, h, pattern, ports.capture@)
                &&& lists_port(listing, ports.capture@)
            } else {
                forall|h: int, name: Seq<char>| !#[trigger] names_capture(lines, h, pattern, name)
            }
            &&& if ports.playback@.len() > 0 {
                &&& exists|h: int| names_playback(lines, h, pattern, ports.playback@)
                &&& lists_port(listing, ports.playback@)
            } else {
                forall|h: int, name: Seq<char>| !#[trigger] names_playback(lines, h, pattern, name)
            }
        }),
{
    let lines = text::lines_of(listing);
    lemma_last_capture(lines, lines.len() as int, pattern);
    lemma_last_playback(lines, lines.len() as int, pattern);
    if ports.capture@.len() > 0 {
        let h = choose|h: int| names_capture(lines, h, pattern, ports.capture@);
        assert(text::trimmed(text::lines_of(listing)[h]) == ports.capture@);
    }
    if ports.playback@.len() > 0 {
        let h = choose|h: int| names_playback(lines, h, pattern, ports.playback@);
        assert(text::trimmed(text::lines_of(listing)[h]) == ports.playback@);
    }
}

/// Tells whether a listing has a port.
pub fn port_in_listing(listing: &str, port_name: &str) -> (r: bool)
    ensures
        r == lists_port(listing@, port_name@),
{
    let lines = text::lines(listing);
    let mut i: usize = 0;
    while i < lines.len()
        invariant
            i <= lines.len(),
            lines.deep_view() == text::lines_of(listing@),
            forall|j: int|
                0 <= j < i ==> text::trimmed(#[trigger] text::lines_of(listing@)[j]) != port_name@,
        decreases lines.len() - i,
    {
        let name = text::trim(lines[i].as_str());
        assert(text::lines_of(listing@)[i as int] == lines[i as int]@);
        if text::same(name.as_str(), port_name) {
            return true;
        }
        i = i + 1;
    }
    false
}

/// Tells whether a port exists, from what `jack_lsp` printed; none does where it could not be run.
pub fn port_exists(stdout: &Option<Vec<u8>>, port_name: &str) -> (r: bool)
    ensures
        match stdout {
            Some(bytes) => {
                &&& r == lists_port(text::lossy_text(bytes@), port_name@)
                &&& vstd::utf8::valid_utf8(bytes@) ==> r == lists_port(
                    vstd::utf8::decode_utf8(bytes@),
                    port_name@,
                )
            },
            None => !r,
        },
{
    match stdout {
        Some(bytes) => {
            let listing = text::from_utf8_lossy(bytes.as_slice());
            port_in_listing(listing.as_str(), port_name)
        },
        None => false,
    }
}

/// A connection to `found` is due: there is such a port, and it is not the connected one.
pub open spec fn is_due(connected: Seq<char>, found: Seq<char>) -> bool {
    found.len() > 0 && found != connected
}

/// Where a poll stands.
pub enum PollStageView {
    /// The next poll is being waited for.
    Sleeping,
    /// The ports with their aliases are being listed.
    Finding,
    /// The device's capture port is being connected.
    ConnectingInput { capture: Seq<char>, playback: Seq<char> },
    /// The device's playback port is being connected.
    ConnectingOutput { playback: Seq<char> },
    /// The ports are being listed, to see whether the connected capture port is still there.
    CheckingInput,
    /// The ports are being listed, to see whether the connected playback port is still there.
    CheckingOutput,
}

/// The model of an [`AutoConnect`]: the bridge's two ports, the pattern in lower case, the ports of
/// the device that are connected (or nothing), and where the poll stands.
pub struct PollView {
    pub in_target: Seq<char>,
    pub out_source: Seq<char>,
    pub pattern: Seq<char>,
    pub input: Seq<char>,
    pub output: Seq<char>,
    pub stage: PollStageView,
}

/// What the caller of an [`AutoConnect`] has done.
#[derive(Debug)]
pub enum PollEvent {
    /// The sleep is over.
    Slept,
    /// The listing was made; this is what was printed, or nothing where it could not be run.
    Listed(Option<Vec<u8>>),
    /// The connection was made, or not.
    Connected(bool),
}

/// What the caller of an [`AutoConnect`] has to do.
#[derive(Debug)]
pub enum PollAction {
    /// Sleep.
    Sleep { millis: u64 },
    /// List the ports with their aliases and types: `jack_lsp -A -t`.
    ListAliases,
    /// Connect two ports: `jack_connect`.
    Connect { from: String, to: String },
    /// List the ports: `jack_lsp`.
    List,
}

/// The model of a [`PollAction`].
pub enum PollActionView {
    Sleep { millis: u64 },
    ListAliases,
    Connect { from: Seq<char>, to: Seq<char> },
    List,
}

impl DeepView for PollAction {
    type V = PollActionView;

    open spec fn deep_view(&self) -> PollActionView {
        match self {
            PollAction::Sleep { millis } => PollActionView::Sleep { millis: *millis },
            PollAction::ListAliases => PollActionView::ListAliases,
            PollAction::Connect { from, to } => PollActionView::Connect { from: from@, to: to@ },
            PollAction::List => PollActionView::List,
        }
    }
}

impl PollView {
    /// The event answers what was to be done.
    pub open spec fn accepts(self, event: PollEvent) -> bool {
        match event {
            PollEvent::Slept => self.stage is Sleeping,
            PollEvent::Listed(_) => self.stage is Finding || self.stage is CheckingInput
                || self.stage is CheckingOutput,
            PollEvent::Connected(_) => self.stage is ConnectingInput
                || self.stage is ConnectingOutput,
        }
    }
}

/// How long to wait before a poll.
pub const POLL_MILLIS: u64 = 1000;

/// The poll is over.
pub open spec fn rest(s: PollView) -> (PollView, PollActionView) {
    (
        PollView { stage: PollStageView::Sleeping, ..s },
        PollActionView::Sleep { millis: POLL_MILLIS },
    )
}

/// Goes on to see whether the connected playback port is still there, where there is one.
pub open spec fn check_output(s: PollView) -> (PollView, PollActionView) {
    if s.output.len() > 0 {
        (PollView { stage: PollStageView::CheckingOutput, ..s }, PollActionView::List)
    } else {
        rest(s)
    }
}

/// Goes on to see whether the connected capture port is still there, where there is one.
pub open spec fn check_input(s: PollView) -> (PollView, PollActionView) {
    if s.input.len() > 0 {
        (PollView { stage: PollStageView::CheckingInput, ..s }, PollActionView::List)
    } else {
        check_output(s)
    }
}

/// Goes on to connect the playback port, where that is due.
pub open spec fn connect_output(s: PollView, playback: Seq<char>) -> (PollView, PollActionView) {
    if is_due(s.output, playback) {
        (
            PollView { stage: PollStageView::ConnectingOutput { playback }, ..s },
            PollActionView::Connect { from: s.out_source, to: playback },
        )
    } else {
        check_input(s)
    }
}

/// Goes on to connect the capture port, where that is due.
pub open spec fn connect_input(s: PollView, capture: Seq<char>, playback: Seq<char>) -> (
    PollView,
    PollActionView,
) {
    if is_due(s.input, capture) {
        (
            PollView { stage: PollStageView::ConnectingInput { capture, playback }, ..s },
            PollActionView::Connect { from: capture, to: s.in_target },
        )
    } else {
        connect_output(s, playback)
    }
}

/// What a listing says of a device: the names of its capture port and its playback port.
pub open spec fn listed_ports(stdout: Option<Seq<u8>>, pattern: Seq<char>) -> (Seq<char>, Seq<char>) {
    match stdout {
        None => (Seq::empty(), Seq::empty()),
        Some(bytes) => {
            let lines = text::lines_of(text::lossy_text(bytes));
            (
                last_capture(lines, lines.len() as int, pattern),
                last_playback(lines, lines.len() as int, pattern),
            )
        },
    }
}

/// A listing has a port.
pub open spec fn is_listed(stdout: Option<Seq<u8>>, name: Seq<char>) -> bool {
    stdout is Some && lists_port(text::lossy_text(stdout->0), name)
}

/// What a port counts as after the check: nothing where it is gone.
pub open spec fn still(connected: Seq<char>, stdout: Option<Seq<u8>>) -> Seq<char> {
    if is_listed(stdout, connected) {
        connected
    } else {
        Seq::empty()
    }
}

/// The bytes of a listing.
pub open spec fn listing_bytes(stdout: Option<Vec<u8>>) -> Option<Seq<u8>> {
    match stdout {
        Some(bytes) => Some(bytes@),
        None => None,
    }
}

/// What an event comes to: the state after it, and what to do next.
pub open spec fn polled(s: PollView, event: PollEvent) -> (PollView, PollActionView) {
    match (s.stage, event) {
        (PollStageView::Finding, PollEvent::Listed(stdout)) => {
            let (capture, playback) = listed_ports(listing_bytes(stdout), s.pattern);
            connect_input(s, capture, playback)
        },
        (
            PollStageView::ConnectingInput { capture, playback },
            PollEvent::Connected(made),
        ) => connect_output(
            PollView {
                input: if made {
                    capture
                } else {
                    s.input
                },
                ..s
            },
            playback,
        ),
        (PollStageView::ConnectingOutput { playback }, PollEvent::Connected(made)) => check_input(
            PollView {
                output: if made {
                    playback
                } else {
                    s.output
                },
                ..s
            },
        ),
        (PollStageView::CheckingInput, PollEvent::Listed(stdout)) => check_output(
            PollView { input: still(s.input, listing_bytes(stdout)), ..s },
        ),
        (PollStageView::CheckingOutput, PollEvent::Listed(stdout)) => rest(
            PollView { output: still(s.output, listing_bytes(stdout)), ..s },
        ),
        _ => (PollView { stage: PollStageView::Finding, ..s }, PollActionView::ListAliases),
    }
}

#[derive(Debug)]
enum PollStage {
    Sleeping,
    Finding,
    ConnectingInput { capture: String, playback: String },
    ConnectingOutput { playback: String },
    CheckingInput,
    CheckingOutput,
}

impl PollStage {
    spec fn model(self) -> PollStageView {
        match self {
            PollStage::Sleeping => PollStageView::Sleeping,
            PollStage::Finding => PollStageView::Finding,
            PollStage::ConnectingInput { capture, playback } => PollStageView::ConnectingInput {
                capture: capture@,
                playback: playback@,
            },
            PollStage::ConnectingOutput { playback } => PollStageView::ConnectingOutput {
                playback: playback@,
            },
            PollStage::CheckingInput => PollStageView::CheckingInput,
            PollStage::CheckingOutput => PollStageView::CheckingOutput,
        }
    }
}

/// The auto-connection of the bridge's ports to those of the device whose aliases match a pattern.
/// Each poll looks for the device, connects what is not connected yet, and drops what is gone, so
/// that the device is connected again after a reboot.
#[derive(Debug)]
pub struct AutoConnect {
    in_target: String,
    out_source: String,
    pattern: String,
    input: String,
    output: String,
    stage: PollStage,
}

impl View for AutoConnect {
    type V = PollView;

    closed spec fn view(&self) -> PollView {
        PollView {
            in_target: self.in_target@,
            out_source: self.out_source@,
            pattern: self.pattern@,
            input: self.input@,
            output: self.output@,
            stage: self.stage.model(),
        }
    }
}

impl AutoConnect {
    /// Nothing is connected yet, and the first poll is to be waited for.
    pub fn new(client_name: &str, pattern: &str) -> (r: (AutoConnect, PollAction))
        ensures
            (r.0@, r.1.deep_view()) == rest(
                PollView {
                    in_target: client_name@ + ":midi_in"@,
                    out_source: client_name@ + ":midi_out"@,
                    pattern: text::lowercase(pattern@),
                    input: Seq::empty(),
                    output: Seq::empty(),
                    stage: PollStageView::Sleeping,
                },
            ),
    {
        let auto = AutoConnect {
            in_target: client_name.to_owned().concat(":midi_in"),
            out_source: client_name.to_owned().concat(":midi_out"),
            pattern: text::to_lowercase(pattern),
            input: String::new(),
            output: String::new(),
            stage: PollStage::Sleeping,
        };
        assert(auto@.input =~= Seq::<char>::empty());
        assert(auto@.output =~= Seq::<char>::empty());
        (auto, PollAction::Sleep { millis: POLL_MILLIS })
    }

    /// The device's port that is connected to the bridge's input, or nothing.
    pub fn connected_in(&self) -> (r: &str)
        ensures
            r@ == self@.input,
    {
        self.input.as_str()
    }

    /// The device's port that is fed by the bridge's output, or nothing.
    pub fn connected_out(&self) -> (r: &str)
        ensures
            r@ == self@.output,
    {
        self.output.as_str()
    }

    fn rest(&mut self) -> (r: PollAction)
        ensures
            (final(self)@, r.deep_view()) == rest(old(self)@),
    {
        self.stage = PollStage::Sleeping;
        PollAction::Sleep { millis: POLL_MILLIS }
    }

    fn check_output(&mut self) -> (r: PollAction)
        ensures
            (final(self)@, r.deep_view()) == check_output(old(self)@),
    {
        if self.output.as_str().is_empty() {
            self.rest()
        } else {
            self.stage = PollStage::CheckingOutput;
            PollAction::List
        }
    }

    fn check_input(&mut self) -> (r: PollAction)
        ensures
            (final(self)@, r.deep_view()) == check_input(old(self)@),
    {
        if self.input.as_str().is_empty() {
            self.check_output()
        } else {
            self.stage = PollStage::CheckingInput;
            PollAction::List
        }
    }

    fn connect_output(&mut self, playback: String) -> (r: PollAction)
        ensures
            (final(self)@, r.deep_view()) == connect_output(old(self)@, playback@),
    {
        if playback.as_str().is_empty() || text::same(playback.as_str(), self.output.as_str()) {
            self.check_input()
        } else {
            let action = PollAction::Connect { from: self.out_source.clone(), to: playback.clone() };
            self.stage = PollStage::ConnectingOutput { playback };
            action
        }
    }

    fn connect_input(&mut self, capture: String, playback: String) -> (r: PollAction)
        ensures
            (final(self)@, r.deep_view()) == connect_input(old(self)@, capture@, playback@),
    {
        if capture.as_str().is_empty() || text::same(capture.as_str(), self.input.as_str()) {
            self.connect_output(playback)
        } else {
            let action = PollAction::Connect { from: capture.clone(), to: self.in_target.clone() };
            self.stage = PollStage::ConnectingInput { capture, playback };
            action
        }
    }

    /// Takes up what the caller has done.
    pub fn auto_connect(&mut self, event: PollEvent) -> (r: PollAction)
        requires
            old(self)@.accepts(event),
        ensures
            (final(self)@, r.deep_view()) == polled(old(self)@, event),
    {
        let mut stage = PollStage::Finding;
        std::mem::swap(&mut stage, &mut self.stage);
        match (stage, event) {
            (PollStage::Finding, PollEvent::Listed(stdout)) => {
                let ports = find_ports_by_alias(&stdout, self.pattern.as_str());
                self.connect_input(ports.capture, ports.playback)
            },
            (PollStage::ConnectingInput { capture, playback }, PollEvent::Connected(made)) => {
                if made {
                    self.input = capture;
                }
                self.connect_output(playback)
            },
            (PollStage::ConnectingOutput { playback }, PollEvent::Connected(made)) => {
                if made {
                    self.output = playback;
                }
                self.check_input()
            },
            (PollStage::CheckingInput, PollEvent::Listed(stdout)) => {
                if !port_exists(&stdout, self.input.as_str()) {
                    self.input = String::new();
                    assert(self.input@ =~= Seq::<char>::empty());
                }
                self.check_output()
            },
            (PollStage::CheckingOutput, PollEvent::Listed(stdout)) => {
                if !port_exists(&stdout, self.output.as_str()) {
                    self.output = String::new();
                    assert(self.output@ =~= Seq::<char>::empty());
                }
                self.rest()
            },
            _ => PollAction::ListAliases,
        }
    }
}

/// One poll from its listing on: `made_in` and `made_out` say whether connections that are tried
/// are made, `now_in` and `now_out` what the listings after that print.
pub open spec fn poll(
    s: PollView,
    listing: Option<Vec<u8>>,
    made_in: bool,
    made_out: bool,
    now_in: Option<Vec<u8>>,
    now_out: Option<Vec<u8>>,
) -> PollView {
    let a = polled(s, PollEvent::Listed(listing)).0;
    let b = if a.stage is ConnectingInput {
        polled(a, PollEvent::Connected(made_in)).0
    } else {
        a
    };
    let c = if b.stage is ConnectingOutput {
        polled(b, PollEvent::Connected(made_out)).0
    } else {
        b
    };
    let d = if c.stage is CheckingInput {
        polled(c, PollEvent::Listed(now_in)).0
    } else {
        c
    };
    if d.stage is CheckingOutput {
        polled(d, PollEvent::Listed(now_out)).0
    } else {
        d
    }
}

/// What is connected after a poll that found `found`: `made` says whether the connection, where
/// one was due, was made, and `stdout` what is listed then.
pub open spec fn after_poll(
    connected: Seq<char>,
    found: Seq<char>,
    made: bool,
    stdout: Option<Seq<u8>>,
) -> Seq<char> {
    let tried = if is_due(connected, found) && made {
        found
    } else {
        connected
    };
    if tried.len() > 0 {
        still(tried, stdout)
    } else {
        Seq::empty()
    }
}

/// A poll ends with the wait for the next one, and treats the two directions alike and apart from
/// each other.
pub proof fn law_poll(
    s: PollView,
    listing: Option<Vec<u8>>,
    made_in: bool,
    made_out: bool,
    now_in: Option<Vec<u8>>,
    now_out: Option<Vec<u8>>,
)
    requires
        s.stage is Finding,
    ensures
        ({
            let found = listed_ports(listing_bytes(listing), s.pattern);
            poll(s, listing, made_in, made_out, now_in, now_out) == (PollView {
                input: after_poll(s.input, found.0, made_in, listing_bytes(now_in)),
                output: after_poll(s.output, found.1, made_out, listing_bytes(now_out)),
                stage: PollStageView::Sleeping,
                ..s
            })
        }),
{
    assert(s.input.len() == 0 ==> s.input =~= Seq::<char>::empty());
    assert(s.output.len() == 0 ==> s.output =~= Seq::<char>::empty());
}

/// After a poll, what counts as connected is listed; and as long as the device is found, each poll
/// leaves it connected or makes the next poll try again. A device that went away and came back is
/// thus connected again.
pub proof fn law_polls_reconnect(
    connected: Seq<char>,
    found: Seq<char>,
    made: bool,
    stdout: Option<Seq<u8>>,
)
    ensures
        ({
            let after = after_poll(connected, found, made, stdout);
            &&& after.len() > 0 ==> is_listed(stdout, after)
            &&& found.len() > 0 ==> after == found || is_due(after, found)
            &&& found.len() > 0 && made && is_listed(stdout, found) ==> after == found
            &&& stdout is None ==> after.len() == 0
        }),
{
}

/// A port that is connected is not connected a second time.
pub proof fn law_no_second_connection(port: Seq<char>)
    ensures
        !is_due(port, port),
{
}

/// Every line from the one after `h` up to `e` begins with a blank or a tab.
pub open spec fn indented_up_to(lines: Seq<Seq<char>>, h: int, e: int) -> bool {
    e < lines.len() && forall|i: int|
        h < i <= e ==> (#[trigger] lines[i]).len() > 0 && (lines[i][0] == ' ' || lines[i][0]
            == '\t')
}

/// A line names a port of the device if and only if it begins with neither a blank nor a tab, and
/// among the lines right below it that begin with one of these there is one with a tab and the type
/// of MIDI ports, and one with a blank and an alias that has the pattern in it, in lower case.
pub proof fn law_ports_of_the_device(lines: Seq<Seq<char>>, h: int, pattern: Seq<char>)
    requires
        0 <= h < lines.len(),
    ensures
        is_matching_port(lines, h, pattern) <==> {
            &&& lines[h].len() > 0
            &&& lines[h][0] != ' '
            &&& lines[h][0] != '\t'
            &&& exists|k: int|
                h < k && #[trigger] indented_up_to(lines, h, k) && lines[k][0] == '\t'
                    && text::trimmed(lines[k]) == "8 bit raw midi"@
            &&& exists|k: int|
                h < k && #[trigger] indented_up_to(lines, h, k) && lines[k][0] == ' '
                    && text::has_part(text::lowercase(text::trimmed(lines[k])), pattern)
        },
{
    assert forall|k: int| h < k implies describes(lines, h, k) == #[trigger] indented_up_to(
        lines,
        h,
        k,
    ) by {
        if describes(lines, h, k) {
            assert forall|i: int| h < i <= k implies (#[trigger] lines[i]).len() > 0 && (lines[i][0]
                == ' ' || lines[i][0] == '\t') by {
                assert(is_indented(lines[i]));
            }
        }
        if indented_up_to(lines, h, k) {
            assert forall|i: int| h < i <= k implies is_indented(#[trigger] lines[i]) by {
                assert(lines[i].len() > 0);
            }
        }
    }
    if is_matching_port(lines, h, pattern) {
        let k = choose|k: int| #[trigger] describes(lines, h, k) && is_midi_type(lines[k]);
        assert(indented_up_to(lines, h, k));
        let a = choose|k: int|
            #[trigger] describes(lines, h, k) && is_matching_alias(lines[k], pattern);
        assert(indented_up_to(lines, h, a));
    }
    if exists|k: int|
        h < k && #[trigger] indented_up_to(lines, h, k) && lines[k][0] == '\t' && text::trimmed(
            lines[k],
        ) == "8 bit raw midi"@ {
        let k = choose|k: int|
            h < k && #[trigger] indented_up_to(lines, h, k) && lines[k][0] == '\t'
                && text::trimmed(lines[k]) == "8 bit raw midi"@;
        assert(describes(lines, h, k));
        assert(lines[k].len() > 0);
        assert(is_midi_type(lines[k]));
    }
    if exists|k: int|
        h < k && #[trigger] indented_up_to(lines, h, k) && lines[k][0] == ' ' && text::has_part(
            text::lowercase(text::trimmed(lines[k])),
            pattern,
        ) {
        let k = choose|k: int|
            h < k && #[trigger] indented_up_to(lines, h, k) && lines[k][0] == ' ' && text::has_part(
                text::lowercase(text::trimmed(lines[k])),
                pattern,
            );
        assert(describes(lines, h, k));
        assert(lines[k].len() > 0);
        assert(is_matching_alias(lines[k], pattern));
    }
}

proof fn lemma_no_capture_after(lines: Seq<Seq<char>>, h: int, n: int, pattern: Seq<char>)
    requires
        0 <= h < n <= lines.len(),
        is_matching_port(lines, h, pattern),
        text::has_part(text::trimmed(lines[h]), "capture"@),
        forall|i: int|
            h < i < n ==> !(is_matching_port(lines, i, pattern) && text::has_part(
                text::trimmed(#[trigger] lines[i]),
                "capture"@,
            )),
    ensures
        last_capture(lines, n, pattern) == text::trimmed(lines[h]),
    decreases n,
{
    if n - 1 > h {
        assert(!(is_matching_port(lines, n - 1, pattern) && text::has_part(
            text::trimmed(lines[n - 1]),
            "capture"@,
        )));
        lemma_no_capture_after(lines, h, n - 1, pattern);
    }
}

proof fn lemma_no_playback_after(lines: Seq<Seq<char>>, h: int, n: int, pattern: Seq<char>)
    requires
        0 <= h < n <= lines.len(),
        is_matching_port(lines, h, pattern),
        !text::has_part(text::trimmed(lines[h]), "capture"@),
        text::has_part(text::trimmed(lines[h]), "playback"@),
        forall|i: int|
            h < i < n ==> !(is_matching_port(lines, i, pattern) && !text::has_part(
                text::trimmed(#[trigger] lines[i]),
                "capture"@,
            ) && text::has_part(text::trimmed(lines[i]), "playback"@)),
    ensures
        last_playback(lines, n, pattern) == text::trimmed(lines[h]),
    decreases n,
{
    if n - 1 > h {
        assert(!(is_matching_port(lines, n - 1, pattern) && !text::has_part(
            text::trimmed(lines[n - 1]),
            "capture"@,
        ) && text::has_part(text::trimmed(lines[n - 1]), "playback"@)));
        lemma_no_playback_after(lines, h, n - 1, pattern);
    }
}

/// The capture port that is found is the last port of the device with `capture` in its name, and the
/// playback port is the last one with `playback` and without `capture` in its name.
pub proof fn law_last_port_counts(
    ports: Ports,
    listing: Seq<char>,
    pattern: Seq<char>,
    h: int,
)
    requires
        ports_of_listing(ports, listing, pattern),
        0 <= h < text::lines_of(listing).len(),
        is_matching_port(text::lines_of(listing), h, pattern),
    ensures
        ({
            let lines = text::lines_of(listing);
            let name = text::trimmed(lines[h]);
            &&& text::has_part(name, "capture"@) && (forall|i: int|
                h < i < lines.len() ==> !(is_matching_port(lines, i, pattern) && text::has_part(
                    text::trimmed(#[trigger] lines[i]),
                    "capture"@,
                ))) ==> ports.capture@ == name
            &&& !text::has_part(name, "capture"@) && text::has_part(name, "playback"@) && (forall|
                i: int,
            |
                h < i < lines.len() ==> !(is_matching_port(lines, i, pattern) && !text::has_part(
                    text::trimmed(#[trigger] lines[i]),
                    "capture"@,
                ) && text::has_part(text::trimmed(lines[i]), "playback"@))) ==> ports.playback@
                == name
        }),
{
    let lines = text::lines_of(listing);
    let n = lines.len() as int;
    let name = text::trimmed(lines[h]);
    if text::has_part(name, "capture"@) && (forall|i: int|
        h < i < n ==> !(is_matching_port(lines, i, pattern) && text::has_part(
            text::trimmed(#[trigger] lines[i]),
            "capture"@,
        ))) {
        lemma_no_capture_after(lines, h, n, pattern);
    }
    if !text::has_part(name, "capture"@) && text::has_part(name, "playback"@) && (forall|i: int|
        h < i < n ==> !(is_matching_port(lines, i, pattern) && !text::has_part(
            text::trimmed(#[trigger] lines[i]),
            "capture"@,
        ) && text::has_part(text::trimmed(lines[i]), "playback"@))) {
        lemma_no_playback_after(lines, h, n, pattern);
    }
}

/// A port whose name does not say that it is one does not count.
pub proof fn law_ports_say_what_they_are(
    ports: Ports,
    listing: Seq<char>,
    pattern: Seq<char>,
)
    requires
        ports_of_listing(ports, listing, pattern),
    ensures
        ports.capture@.len() > 0 ==> text::has_part(ports.capture@, "capture"@),
        ports.playback@.len() > 0 ==> text::has_part(ports.playback@, "playback"@)
            && !text::has_part(ports.playback@, "capture"@),
{
    law_found_ports_are_listed(ports, listing, pattern);
}

/// A port exists if a line of the listing is its name, with white space around it or none.
pub proof fn law_listed_names(listing: Seq<char>, name: Seq<char>, i: int)
    ensures
        0 <= i < text::lines_of(listing).len() && text::trimmed(text::lines_of(listing)[i]) == name
            ==> lists_port(listing, name),
        (forall|k: int|
            0 <= k < text::lines_of(listing).len() ==> text::trimmed(
                #[trigger] text::lines_of(listing)[k],
            ) != name) ==> !lists_port(listing, name),
{
}

/// A poll tries to connect what was found and is not connected, and only that: the device's capture
/// port to the bridge's input, and the bridge's output to the device's playback port.
pub proof fn law_connections_are_the_right_way_round(
    s: PollView,
    listing: Option<Vec<u8>>,
    made: bool,
)
    requires
        s.stage is Finding,
    ensures
        ({
            let (capture, playback) = listed_ports(listing_bytes(listing), s.pattern);
            let (a, action) = polled(s, PollEvent::Listed(listing));
            let wants_in = capture.len() > 0 && capture != s.input;
            let wants_out = playback.len() > 0 && playback != s.output;
            &&& wants_in ==> {
                &&& action == (PollActionView::Connect { from: capture, to: s.in_target })
                &&& ({
                    let (b, then) = polled(a, PollEvent::Connected(made));
                    &&& b.input == (if made {
                        capture
                    } else {
                        s.input
                    })
                    &&& wants_out ==> then == (PollActionView::Connect {
                        from: s.out_source,
                        to: playback,
                    })
                    &&& !wants_out ==> !(then is Connect)
                })
            }
            &&& !wants_in && wants_out ==> {
                &&& action == (PollActionView::Connect { from: s.out_source, to: playback })
                &&& polled(a, PollEvent::Connected(made)).0.output == (if made {
                    playback
                } else {
                    s.output
                })
            }
            &&& !wants_in && !wants_out ==> !(action is Connect)
        }),
{
}

/// What is connected stays so as long as it is listed and nothing else of the device is found; what
/// is not listed any more is dropped.
pub proof fn law_connections_stay_while_listed(
    connected: Seq<char>,
    made: bool,
    stdout: Option<Seq<u8>>,
)
    requires
        connected.len() > 0,
    ensures
        is_listed(stdout, connected) ==> after_poll(connected, connected, made, stdout) == connected,
        is_listed(stdout, connected) ==> after_poll(connected, Seq::empty(), made, stdout)
            == connected,
        !is_listed(stdout, connected) ==> after_poll(connected, Seq::empty(), made, stdout).len()
            == 0,
        is_listed(stdout, connected) ==> forall|found: Seq<char>| #[trigger] after_poll(
            connected,
            found,
            false,
            stdout,
        ) == connected,
{
}

/// A poll begins a second after the one before it ended.
pub proof fn law_poll_every_second(s: PollView)
    ensures
        rest(s).1 == (PollActionView::Sleep { millis: 1000 }),
        rest(s).0.stage is Sleeping,
        polled(rest(s).0, PollEvent::Slept).1 is ListAliases,
        polled(rest(s).0, PollEvent::Slept).0.input == s.input,
        polled(rest(s).0, PollEvent::Slept).0.output == s.output,
{
}

} // verus!
