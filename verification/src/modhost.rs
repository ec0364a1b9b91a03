//! The client side of the mod-host protocol.
//!
//! - Commands are newline-terminated UTF-8 texts.
//! - Responses are null-terminated: `resp <status> [value]\0`.
//! - Only one client connection at a time.
//!
//! The socket itself is the caller's: this module says which bytes to write, and what the bytes
//! that were read mean.
use vstd::prelude::*;

use crate::audio::Action;
use crate::text;

verus! {

/// Errors of the mod-host client.
#[derive(Debug)]
pub enum Error {
    /// Connecting, writing or reading failed; holds what the system said.
    Connect(String),
    /// mod-host answered with a negative status.
    ModHost { code: i32, message: String },
    /// No response came in time.
    Timeout,
    /// The response does not follow the protocol.
    InvalidResponse(String),
    /// There is no connection.
    NotConnected,
}

/// The model of an [`Error`].
pub enum ErrorView {
    Connect(Seq<char>),
    ModHost { code: i32, message: Seq<char> },
    Timeout,
    InvalidResponse(Seq<char>),
    NotConnected,
}

impl DeepView for Error {
    type V = ErrorView;

    open spec fn deep_view(&self) -> ErrorView {
        match self {
            Error::Connect(e) => ErrorView::Connect(e@),
            Error::ModHost { code, message } => ErrorView::ModHost {
                code: *code,
                message: message@,
            },
            Error::Timeout => ErrorView::Timeout,
            Error::InvalidResponse(raw) => ErrorView::InvalidResponse(raw@),
            Error::NotConnected => ErrorView::NotConnected,
        }
    }
}

/// How an error is reported to people.
pub open spec fn error_text(e: ErrorView) -> Seq<char> {
    match e {
        ErrorView::Connect(cause) => "connection failed: "@ + cause,
        ErrorView::ModHost { code, message } => "mod-host error "@ + text::decimal_int(code as int)
            + ": "@ + message,
        ErrorView::Timeout => "timeout waiting for response"@,
        ErrorView::InvalidResponse(raw) => "invalid response: "@ + raw,
        ErrorView::NotConnected => "not connected"@,
    }
}

impl Error {
    /// The error as a line for people.
    pub fn describe(&self) -> (r: String)
        ensures
            r@ == error_text(self.deep_view()),
    {
        match self {
            Error::Connect(cause) => "connection failed: ".to_owned().concat(cause.as_str()),
            Error::ModHost { code, message } => {
                let mut out = "mod-host error ".to_owned();
                text::push_decimal_int(&mut out, *code);
                out.append(": ");
                out.append(message.as_str());
                out
            },
            Error::Timeout => "timeout waiting for response".to_owned(),
            Error::InvalidResponse(raw) => "invalid response: ".to_owned().concat(raw.as_str()),
            Error::NotConnected => "not connected".to_owned(),
        }
    }
}

/// A parsed response.
#[derive(Debug, Clone)]
pub struct Response {
    pub status: i32,
    pub value: Option<String>,
}

/// The model of a [`Response`].
pub struct ResponseView {
    pub status: i32,
    pub value: Option<Seq<char>>,
}

impl DeepView for Response {
    type V = ResponseView;

    open spec fn deep_view(&self) -> ResponseView {
        ResponseView { status: self.status, value: self.value.deep_view() }
    }
}

/// What the negative statuses of mod-host mean.
pub open spec fn error_meaning(code: int) -> Seq<char> {
    if code == -1 {
        "instance invalid"@
    } else if code == -2 {
        "instance already exists"@
    } else if code == -3 {
        "instance does not exist"@
    } else if code == -4 {
        "instance unlicensed"@
    } else if code == -101 {
        "invalid LV2 URI"@
    } else if code == -102 {
        "LV2 instantiation failed"@
    } else if code == -103 {
        "invalid parameter symbol"@
    } else if code == -104 {
        "invalid preset URI"@
    } else if code == -105 {
        "can't load state"@
    } else if code == -201 {
        "JACK client creation failed"@
    } else if code == -202 {
        "JACK client activation failed"@
    } else if code == -203 {
        "JACK client deactivation failed"@
    } else if code == -204 {
        "JACK port register failed"@
    } else if code == -205 {
        "JACK port connection failed"@
    } else if code == -206 {
        "JACK port disconnection failed"@
    } else if code == -207 {
        "JACK value out of range"@
    } else if code == -901 {
        "memory allocation failed"@
    } else if code == -902 {
        "invalid operation"@
    } else {
        "unknown error"@
    }
}

/// The message for a status code of mod-host.
pub fn error_message(code: i32) -> (r: &'static str)
    ensures
        r@ == error_meaning(code as int),
{
    match code {
        -1 => "instance invalid",
        -2 => "instance already exists",
        -3 => "instance does not exist",
        -4 => "instance unlicensed",
        -101 => "invalid LV2 URI",
        -102 => "LV2 instantiation failed",
        -103 => "invalid parameter symbol",
        -104 => "invalid preset URI",
        -105 => "can't load state",
        -201 => "JACK client creation failed",
        -202 => "JACK client activation failed",
        -203 => "JACK client deactivation failed",
        -204 => "JACK port register failed",
        -205 => "JACK port connection failed",
        -206 => "JACK port disconnection failed",
        -207 => "JACK value out of range",
        -901 => "memory allocation failed",
        -902 => "invalid operation",
        _ => "unknown error",
    }
}

/// The model of what a call to mod-host yields.
pub type Outcome = Result<ResponseView, ErrorView>;

/// The model of a result.
pub open spec fn outcome(r: Result<Response, Error>) -> Outcome {
    match r {
        Ok(response) => Ok(response.deep_view()),
        Err(e) => Err(e.deep_view()),
    }
}

/// What a response says: `resp`, a blank, the status, and where another blank follows, a value.
/// White space around the response does not count.
pub open spec fn parsed_response(raw: Seq<char>) -> Outcome {
    let line = text::trimmed(raw);
    if !"resp "@.is_prefix_of(line) {
        Err(ErrorView::InvalidResponse(line))
    } else {
        let rest = line.skip(5);
        let blank = text::position(rest, ' ', 0);
        match text::signed_number(rest.take(blank), i32::MIN as int, i32::MAX as int) {
            None => Err(ErrorView::InvalidResponse(line)),
            Some(status) => if status < 0 {
                Err(ErrorView::ModHost { code: status as i32, message: error_meaning(status) })
            } else {
                Ok(
                    ResponseView {
                        status: status as i32,
                        value: if blank < rest.len() {
                            Some(rest.skip(blank + 1))
                        } else {
                            None
                        },
                    },
                )
            },
        }
    }
}

/// The position of the first null byte in `buf` from `i` on, or the length of `buf` where there is
/// none.
pub open spec fn null_at(buf: Seq<u8>, i: int) -> int
    decreases buf.len() - i,
{
    if 0 <= i < buf.len() && buf[i] != 0 {
        null_at(buf, i + 1)
    } else {
        i
    }
}

/// The bytes of the first response in `buf`: those before its terminator.
pub open spec fn first_response(buf: Seq<u8>) -> Seq<u8> {
    buf.take(null_at(buf, 0))
}

/// What an exchange that holds `buf` comes to when a read gives `data`: the bytes that it then
/// holds, and the result, where there is one.
pub open spec fn after_data(buf: Seq<u8>, data: Seq<u8>) -> (Seq<u8>, Option<Outcome>) {
    if data.len() == 0 {
        (buf, Some(Err(ErrorView::Connect("connection closed"@))))
    } else if (buf + data).contains(0) {
        (buf + data, Some(parsed_response(text::lossy_text(first_response(buf + data)))))
    } else {
        (buf + data, None)
    }
}

/// How long to wait for a response.
#[derive(Debug, Clone, Copy, PartialEq, Eq, Structural)]
pub struct Timeout {
    pub secs: u64,
    pub nanos: u32,
}

/// The bytes on the wire for a command.
pub open spec fn wire(command: Seq<char>) -> Seq<u8> {
    vstd::utf8::encode_utf8(command + "\n"@)
}

/// A client of the mod-host LV2 plugin host.
#[derive(Debug)]
pub struct ModHostClient {
    connected: bool,
    timeout: Timeout,
}

impl ModHostClient {
    /// Whether there is a connection.
    pub closed spec fn linked(&self) -> bool {
        self.connected
    }

    /// How long the client waits for a response.
    pub closed spec fn patience(&self) -> Timeout {
        self.timeout
    }

    /// A client for the connection that was tried, with `tried` saying how that ended.
    pub fn connect(tried: Result<(), String>) -> (r: Result<ModHostClient, Error>)
        ensures
            match tried {
                Ok(_) => r matches Ok(c) && c.linked() && c.patience() == (Timeout {
                    secs: 30,
                    nanos: 0,
                }),
                Err(cause) => r matches Err(e) && e.deep_view() == ErrorView::Connect(cause@),
            },
    {
        match tried {
            Ok(_) => Ok(
                ModHostClient { connected: true, timeout: Timeout { secs: 30, nanos: 0 } },
            ),
            Err(cause) => Err(Error::Connect(cause)),
        }
    }

    /// A client without a connection (for design mode).
    pub fn disconnected() -> (r: ModHostClient)
        ensures
            !r.linked(),
            r.patience() == (Timeout { secs: 30, nanos: 0 }),
    {
        ModHostClient { connected: false, timeout: Timeout { secs: 30, nanos: 0 } }
    }

    /// Tells whether there is a connection.
    pub fn is_connected(&self) -> (r: bool)
        ensures
            r == self.linked(),
    {
        self.connected
    }

    /// Sets how long to wait for a response (at first 30 s, needed for heavy plugin loads).
    pub fn set_timeout(&mut self, timeout: Timeout)
        ensures
            final(self).patience() == timeout,
            final(self).linked() == old(self).linked(),
    {
        self.timeout = timeout;
    }

    /// How long to wait for a response.
    pub fn timeout(&self) -> (r: Timeout)
        ensures
            r == self.patience(),
    {
        self.timeout
    }

    /// What sending `command` comes to: the bytes to write, or the refusal.
    pub open spec fn request(&self, command: Seq<char>, r: Result<Vec<u8>, Error>) -> bool {
        match r {
            Ok(bytes) => self.linked() && bytes@ == wire(command),
            Err(e) => !self.linked() && e.deep_view() == ErrorView::NotConnected,
        }
    }

    /// The bytes to write for a raw command. The answer is read by an [`Exchange`].
    pub fn send(&self, command: &str) -> (r: Result<Vec<u8>, Error>)
        ensures
            self.request(command@, r),
    {
        if !self.connected {
            return Err(Error::NotConnected);
        }
        let line = command.to_owned().concat("\n");
        Ok(line.as_str().as_bytes_vec())
    }

    /// Reads a response.
    pub fn parse_response(raw: &str) -> (r: Result<Response, Error>)
        ensures
            outcome(r) == parsed_response(raw@),
    {
        let line = text::trim(raw);
        if !text::starts_with(line.as_str(), "resp ") {
            return Err(Error::InvalidResponse(line));
        }
        proof {
            reveal_strlit("resp ");
        }
        let chars = text::chars_of(line.as_str());
        let rest = line.as_str().substring_char(5, chars.len());
        assert(rest@ =~= line@.skip(5));
        let tail = text::chars_of(rest);
        let blank = text::find_char(&tail, ' ', 0);
        let number = rest.substring_char(0, blank);
        assert(number@ =~= rest@.take(blank as int));
        match text::parse_i32(number) {
            None => Err(Error::InvalidResponse(line)),
            Some(status) => {
                if status < 0 {
                    return Err(
                        Error::ModHost { code: status, message: error_message(status).to_owned() },
                    );
                }
                let value = if blank < tail.len() {
                    let v = rest.substring_char(blank + 1, tail.len()).to_owned();
                    assert(v@ =~= rest@.skip(blank + 1));
                    Some(v)
                } else {
                    None
                };
                Ok(Response { status, value })
            },
        }
    }
}

/// The command that adds an instance of a plugin.
pub open spec fn add_command(uri: Seq<char>, instance_id: u32) -> Seq<char> {
    "add "@ + uri + " "@ + text::decimal(instance_id as nat)
}

/// The command that removes an instance.
pub open spec fn remove_command(instance_id: u32) -> Seq<char> {
    "remove "@ + text::decimal(instance_id as nat)
}

/// The command that loads a preset onto an instance.
pub open spec fn preset_load_command(instance_id: u32, preset_uri: Seq<char>) -> Seq<char> {
    "preset_load "@ + text::decimal(instance_id as nat) + " "@ + preset_uri
}

/// The command that sets a parameter.
pub open spec fn param_set_command(
    instance_id: u32,
    symbol: Seq<char>,
    value: Seq<char>,
) -> Seq<char> {
    "param_set "@ + text::decimal(instance_id as nat) + " "@ + symbol + " "@ + value
}

/// The command that asks for a parameter.
pub open spec fn param_get_command(instance_id: u32, symbol: Seq<char>) -> Seq<char> {
    "param_get "@ + text::decimal(instance_id as nat) + " "@ + symbol
}

/// The command that bypasses an instance or puts it back into the signal path.
pub open spec fn bypass_command(instance_id: u32, bypassed: bool) -> Seq<char> {
    "bypass "@ + text::decimal(instance_id as nat) + (if bypassed {
        " 1"@
    } else {
        " 0"@
    })
}

/// The command that connects two JACK ports.
pub open spec fn connect_command(from: Seq<char>, to: Seq<char>) -> Seq<char> {
    "connect "@ + from + " "@ + to
}

/// The command that disconnects two JACK ports.
pub open spec fn disconnect_command(from: Seq<char>, to: Seq<char>) -> Seq<char> {
    "disconnect "@ + from + " "@ + to
}

/// The command that registers an LV2 bundle.
pub open spec fn bundle_add_command(path: Seq<char>) -> Seq<char> {
    "bundle_add "@ + path
}

/// The command that unregisters an LV2 bundle.
pub open spec fn bundle_remove_command(path: Seq<char>) -> Seq<char> {
    "bundle_remove "@ + path + " \"\""@
}

/// How to remove all instances. mod-host does not reliably answer this command, so the caller
/// writes the bytes, lets mod-host settle, and drains at most one read of what may have come.
#[derive(Debug)]
pub struct RemoveAll {
    pub bytes: Vec<u8>,
    pub settle_millis: u64,
    pub drain_millis: u64,
    pub drain_bytes: usize,
}

/// A floating-point number, held by the bit pattern of its IEEE 754 double.
#[derive(Debug, Clone, Copy, PartialEq, Eq, Structural)]
pub struct Number {
    pub bits: u64,
}

impl DeepView for Number {
    type V = Number;

    open spec fn deep_view(&self) -> Number {
        *self
    }
}

impl ModHostClient {
    /// Adds an LV2 plugin instance.
    pub fn add_plugin(&self, uri: &str, instance_id: u32) -> (r: Result<Vec<u8>, Error>)
        ensures
            self.request(add_command(uri@, instance_id), r),
    {
        let mut command = "add ".to_owned();
        command.append(uri);
        command.append(" ");
        text::push_decimal(&mut command, instance_id as u64);
        self.send(command.as_str())
    }

    /// Removes a plugin instance.
    pub fn remove_plugin(&self, instance_id: u32) -> (r: Result<Vec<u8>, Error>)
        ensures
            self.request(remove_command(instance_id), r),
    {
        let mut command = "remove ".to_owned();
        text::push_decimal(&mut command, instance_id as u64);
        self.send(command.as_str())
    }

    /// Removes all plugin instances.
    pub fn remove_all(&self) -> (r: Result<RemoveAll, Error>)
        ensures
            match r {
                Ok(removal) => {
                    &&& self.linked()
                    &&& removal.bytes@ == wire("remove -1"@)
                    &&& removal.settle_millis == 100
                    &&& removal.drain_millis == 200
                    &&& removal.drain_bytes == 256
                },
                Err(e) => !self.linked() && e.deep_view() == ErrorView::NotConnected,
            },
    {
        match self.send("remove -1") {
            Ok(bytes) => Ok(
                RemoveAll { bytes, settle_millis: 100, drain_millis: 200, drain_bytes: 256 },
            ),
            Err(e) => Err(e),
        }
    }

    /// Loads a preset by URI onto a plugin instance.
    pub fn preset_load(&self, instance_id: u32, preset_uri: &str) -> (r: Result<Vec<u8>, Error>)
        ensures
            self.request(preset_load_command(instance_id, preset_uri@), r),
    {
        let mut command = "preset_load ".to_owned();
        text::push_decimal(&mut command, instance_id as u64);
        command.append(" ");
        command.append(preset_uri);
        self.send(command.as_str())
    }

    /// Sets a parameter of a plugin instance. `value` is the number as it is to be written.
    pub fn param_set(&self, instance_id: u32, symbol: &str, value: &str) -> (r: Result<
        Vec<u8>,
        Error,
    >)
        ensures
            self.request(param_set_command(instance_id, symbol@, value@), r),
    {
        let mut command = "param_set ".to_owned();
        text::push_decimal(&mut command, instance_id as u64);
        command.append(" ");
        command.append(symbol);
        command.append(" ");
        command.append(value);
        self.send(command.as_str())
    }

    /// Asks for a parameter of a plugin instance. [`ModHostClient::param_value`] reads the answer.
    pub fn param_get(&self, instance_id: u32, symbol: &str) -> (r: Result<Vec<u8>, Error>)
        ensures
            self.request(param_get_command(instance_id, symbol@), r),
    {
        let mut command = "param_get ".to_owned();
        text::push_decimal(&mut command, instance_id as u64);
        command.append(" ");
        command.append(symbol);
        self.send(command.as_str())
    }

    /// Bypasses a plugin instance, or puts it back into the signal path.
    pub fn bypass(&self, instance_id: u32, bypassed: bool) -> (r: Result<Vec<u8>, Error>)
        ensures
            self.request(bypass_command(instance_id, bypassed), r),
    {
        let mut command = "bypass ".to_owned();
        text::push_decimal(&mut command, instance_id as u64);
        command.append(
            if bypassed {
                " 1"
            } else {
                " 0"
            },
        );
        self.send(command.as_str())
    }

    /// Connects two JACK ports.
    pub fn connect_ports(&self, from: &str, to: &str) -> (r: Result<Vec<u8>, Error>)
        ensures
            self.request(connect_command(from@, to@), r),
    {
        let mut command = "connect ".to_owned();
        command.append(from);
        command.append(" ");
        command.append(to);
        self.send(command.as_str())
    }

    /// Disconnects two JACK ports.
    pub fn disconnect_ports(&self, from: &str, to: &str) -> (r: Result<Vec<u8>, Error>)
        ensures
            self.request(disconnect_command(from@, to@), r),
    {
        let mut command = "disconnect ".to_owned();
        command.append(from);
        command.append(" ");
        command.append(to);
        self.send(command.as_str())
    }

    /// Registers an LV2 bundle (makes its presets available for `preset_load`).
    pub fn bundle_add(&self, path: &str) -> (r: Result<Vec<u8>, Error>)
        ensures
            self.request(bundle_add_command(path@), r),
    {
        let command = "bundle_add ".to_owned().concat(path);
        self.send(command.as_str())
    }

    /// Unregisters an LV2 bundle.
    pub fn bundle_remove(&self, path: &str) -> (r: Result<Vec<u8>, Error>)
        ensures
            self.request(bundle_remove_command(path@), r),
    {
        let command = "bundle_remove ".to_owned().concat(path).concat(" \"\"");
        self.send(command.as_str())
    }

    /// Asks for the current JACK CPU load. [`ModHostClient::cpu_load_value`] reads the answer.
    pub fn cpu_load(&self) -> (r: Result<Vec<u8>, Error>)
        ensures
            self.request("cpu_load"@, r),
    {
        self.send("cpu_load")
    }

    /// The bytes to write for a step of the audio engine, where the step is a command that
    /// mod-host answers. `number` is the value of a parameter as it is to be written.
    ///
    /// The other steps are not answered by mod-host: pauses, files and marks are no commands, and
    /// [`ModHostClient::remove_all`] has a way of its own.
    pub fn command_for(&self, action: &Action, number: &str) -> (r: Option<Result<Vec<u8>, Error>>)
        ensures
            match action {
                Action::AddPlugin { uri, id } => r matches Some(sent) && self.request(
                    add_command(uri@, *id),
                    sent,
                ),
                Action::ConnectPorts { from, to } => r matches Some(sent) && self.request(
                    connect_command(from@, to@),
                    sent,
                ),
                Action::BundleAdd { path } => r matches Some(sent) && self.request(
                    bundle_add_command(path@),
                    sent,
                ),
                Action::PresetLoad { id, uri } => r matches Some(sent) && self.request(
                    preset_load_command(*id, uri@),
                    sent,
                ),
                Action::Bypass { id, bypassed } => r matches Some(sent) && self.request(
                    bypass_command(*id, *bypassed),
                    sent,
                ),
                Action::ParamSet { id, symbol, .. } => r matches Some(sent) && self.request(
                    param_set_command(*id, symbol@, number@),
                    sent,
                ),
                _ => r is None,
            },
    {
        match action {
            Action::AddPlugin { uri, id } => Some(self.add_plugin(uri.as_str(), *id)),
            Action::ConnectPorts { from, to } => Some(
                self.connect_ports(from.as_str(), to.as_str()),
            ),
            Action::BundleAdd { path } => Some(self.bundle_add(path.as_str())),
            Action::PresetLoad { id, uri } => Some(self.preset_load(*id, uri.as_str())),
            Action::Bypass { id, bypassed } => Some(self.bypass(*id, *bypassed)),
            Action::ParamSet { id, symbol, .. } => Some(
                self.param_set(*id, symbol.as_str(), number),
            ),
            _ => None,
        }
    }

    /// The number in the answer to `param_get`. `number` is what the value of the response reads
    /// as, if there is a value and it reads as a number.
    pub fn param_value(answer: Result<Response, Error>, number: Option<Number>) -> (r: Result<
        Number,
        Error,
    >)
        ensures
            number_answer(outcome(answer), number, "missing value"@, r),
    {
        match answer {
            Err(e) => Err(e),
            Ok(response) => match (response.value, number) {
                (Some(_), Some(n)) => Ok(n),
                _ => Err(Error::InvalidResponse("missing value".to_owned())),
            },
        }
    }

    /// The number in the answer to `cpu_load`. `number` is what the value of the response reads
    /// as, if there is a value and it reads as a number.
    pub fn cpu_load_value(answer: Result<Response, Error>, number: Option<Number>) -> (r: Result<
        Number,
        Error,
    >)
        ensures
            number_answer(outcome(answer), number, "missing cpu_load value"@, r),
    {
        match answer {
            Err(e) => Err(e),
            Ok(response) => match (response.value, number) {
                (Some(_), Some(n)) => Ok(n),
                _ => Err(Error::InvalidResponse("missing cpu_load value".to_owned())),
            },
        }
    }
}

/// A query for a number yields the error of the answer, the number, or the complaint that there
/// is none.
pub open spec fn number_answer(
    answer: Outcome,
    number: Option<Number>,
    complaint: Seq<char>,
    r: Result<Number, Error>,
) -> bool {
    match answer {
        Err(e) => r matches Err(out) && out.deep_view() == e,
        Ok(response) => if response.value is Some && number is Some {
            r == Ok::<Number, Error>(number->0)
        } else {
            r matches Err(out) && out.deep_view() == ErrorView::InvalidResponse(complaint)
        },
    }
}

/// What a read from the socket gave.
#[derive(Debug)]
pub enum ReadEvent {
    /// These bytes; none where the other side has closed the connection.
    Data(Vec<u8>),
    /// The read failed; holds what the system said.
    Failed(String),
    /// The time for the response is over.
    TimedOut,
}

/// What to do after a read.
#[derive(Debug)]
pub enum ReadStep {
    /// Read on.
    More,
    /// The exchange is over, with this result.
    Finished(Result<Response, Error>),
}

/// The reading of one response.
#[derive(Debug)]
pub struct Exchange {
    buf: Vec<u8>,
}

impl View for Exchange {
    type V = Seq<u8>;

    closed spec fn view(&self) -> Seq<u8> {
        self.buf@
    }
}

impl Exchange {
    /// An exchange for which nothing has been read.
    pub fn new() -> (r: Exchange)
        ensures
            r@ == Seq::<u8>::empty(),
    {
        Exchange { buf: Vec::new() }
    }

    /// Takes up what a read gave. The response is complete once a null byte has come, and ends
    /// there. Bytes that came after it in the same read belong to no response that was asked for:
    /// they are dropped with the exchange.
    pub fn on_read(&mut self, event: ReadEvent) -> (r: ReadStep)
        ensures
            match event {
                ReadEvent::Data(data) => {
                    let (buf, finished) = after_data(old(self)@, data@);
                    &&& final(self)@ == buf
                    &&& match finished {
                        Some(out) => r matches ReadStep::Finished(result) && outcome(result) == out,
                        None => r is More,
                    }
                    &&& data@.len() > 0 && buf.contains(0) && vstd::utf8::valid_utf8(
                        first_response(buf),
                    ) ==> {
                        &&& r matches ReadStep::Finished(result)
                        &&& outcome(result) == parsed_response(
                            vstd::utf8::decode_utf8(first_response(buf)),
                        )
                    }
                },
                ReadEvent::Failed(cause) => {
                    &&& final(self)@ == old(self)@
                    &&& r matches ReadStep::Finished(result)
                    &&& outcome(result) == Err::<ResponseView, ErrorView>(
                        ErrorView::Connect(cause@),
                    )
                },
                ReadEvent::TimedOut => {
                    &&& final(self)@ == old(self)@
                    &&& r matches ReadStep::Finished(result)
                    &&& outcome(result) == Err::<ResponseView, ErrorView>(ErrorView::Timeout)
                },
            },
    {
        match event {
            ReadEvent::Failed(cause) => ReadStep::Finished(Err(Error::Connect(cause))),
            ReadEvent::TimedOut => ReadStep::Finished(Err(Error::Timeout)),
            ReadEvent::Data(data) => {
                if data.len() == 0 {
                    return ReadStep::Finished(Err(Error::Connect("connection closed".to_owned())));
                }
                let mut data = data;
                self.buf.append(&mut data);
                let end = find_null(&self.buf);
                if end == self.buf.len() {
                    return ReadStep::More;
                }
                let response = copy_front(&self.buf, end);
                let decoded = text::from_utf8_lossy(response.as_slice());
                ReadStep::Finished(ModHostClient::parse_response(decoded.as_str()))
            },
        }
    }
}

proof fn lemma_null_at(buf: Seq<u8>, i: int)
    requires
        0 <= i <= buf.len(),
    ensures
        i <= null_at(buf, i) <= buf.len(),
        null_at(buf, i) < buf.len() ==> buf[null_at(buf, i)] == 0,
        forall|k: int| i <= k < null_at(buf, i) ==> buf[k] != 0,
    decreases buf.len() - i,
{
    if i < buf.len() && buf[i] != 0 {
        lemma_null_at(buf, i + 1);
    }
}

fn find_null(buf: &Vec<u8>) -> (r: usize)
    ensures
        r == null_at(buf@, 0),
        r <= buf.len(),
        r < buf.len() <==> buf@.contains(0),
{
    let mut i: usize = 0;
    while i < buf.len() && buf[i] != 0
        invariant
            i <= buf.len(),
            forall|j: int| 0 <= j < i ==> buf[j] != 0,
            null_at(buf@, 0) == null_at(buf@, i as int),
        decreases buf.len() - i,
    {
        i = i + 1;
    }
    i
}

fn copy_front(buf: &Vec<u8>, n: usize) -> (r: Vec<u8>)
    requires
        n <= buf.len(),
    ensures
        r@ == buf@.take(n as int),
{
    let mut front: Vec<u8> = Vec::new();
    let mut i: usize = 0;
    while i < n
        invariant
            i <= n <= buf.len(),
            front@ =~= buf@.take(i as int),
        decreases n - i,
    {
        front.push(buf[i]);
        i = i + 1;
    }
    front
}

/// What an exchange that holds `buf` comes to when reads give `reads`, one after the other, until
/// there is a result.
pub open spec fn read_all(buf: Seq<u8>, reads: Seq<Seq<u8>>) -> Option<Outcome>
    decreases reads.len(),
{
    if reads.len() == 0 {
        None
    } else {
        let (next, finished) = after_data(buf, reads[0]);
        match finished {
            Some(out) => Some(out),
            None => read_all(next, reads.drop_first()),
        }
    }
}

proof fn lemma_reads(buf: Seq<u8>, reply: Seq<u8>, reads: Seq<Seq<u8>>)
    requires
        !buf.contains(0),
        !reply.contains(0),
        forall|i: int| 0 <= i < reads.len() ==> (#[trigger] reads[i]).len() > 0,
        reply.push(0).is_prefix_of(buf + reads.flatten()),
    ensures
        read_all(buf, reads) == Some(parsed_response(text::lossy_text(reply))),
    decreases reads.len(),
{
    let total = buf + reads.flatten();
    let n = reply.len() as int;
    assert(total.subrange(0, n + 1) == reply.push(0));
    assert(total[n] == total.subrange(0, n + 1)[n]);
    if reads.len() == 0 {
        assert(total =~= buf);
        assert(buf[n] == 0);
    } else {
        let rest = reads.drop_first();
        let all = buf + reads[0];
        assert(total =~= all + rest.flatten());
        if all.contains(0) {
            lemma_null_at(all, 0);
            let at = null_at(all, 0);
            assert forall|k: int| 0 <= k < n implies total[k] == reply[k] && reply[k] != 0 by {
                assert(total[k] == total.subrange(0, n + 1)[k]);
                assert(reply.contains(reply[k]));
            }
            assert(at < all.len()) by {
                if at == all.len() {
                    let k = all.index_of(0);
                    assert(all[k] == 0);
                }
            }
            assert(all[at] == total[at]);
            assert(at == n) by {
                if at > n {
                    assert(all[n] == total[n]);
                }
            }
            assert(first_response(all) =~= reply);
        } else {
            assert forall|i: int| 0 <= i < rest.len() implies (#[trigger] rest[i]).len() > 0 by {
                assert(rest[i] == reads[i + 1]);
            }
            lemma_reads(all, reply, rest);
        }
    }
}

/// What goes out for a command is the command and a line feed, and what comes back is the response
/// before the first null byte: how the reply is cut into reads makes no difference, nor does what
/// follows the null byte. This holds of bytes that are not UTF-8, too.
pub proof fn law_reads_in_pieces(command: Seq<char>, reply: Seq<u8>, reads: Seq<Seq<u8>>)
    requires
        !reply.contains(0),
        forall|i: int| 0 <= i < reads.len() ==> (#[trigger] reads[i]).len() > 0,
        reply.push(0).is_prefix_of(reads.flatten()),
    ensures
        wire(command) == vstd::utf8::encode_utf8(command.push('\n')),
        read_all(Seq::empty(), reads) == Some(parsed_response(text::lossy_text(reply))),
        parsed_response(text::lossy_text(reply)) == parsed_response(
            text::trimmed(text::lossy_text(reply)),
        ),
{
    reveal_strlit("\n");
    assert(command + "\n"@ =~= command.push('\n'));
    assert(Seq::<u8>::empty() + reads.flatten() =~= reads.flatten());
    lemma_reads(Seq::empty(), reply, reads);
    text::law_trim(text::lossy_text(reply));
}

/// A response as the protocol has it: `resp <status> [value]`.
pub open spec fn response_line(status: i32, value: Option<Seq<char>>) -> Seq<char> {
    "resp "@ + text::decimal_int(status as int) + (match value {
        Some(v) => seq![' '] + v,
        None => Seq::empty(),
    })
}

/// A response begins with a letter and ends as its last part does.
proof fn lemma_response_line(status: i32, value: Option<Seq<char>>)
    requires
        value matches Some(v) ==> v.len() > 0,
    ensures
        response_line(status, value).len() > 5,
        response_line(status, value)[0] == 'r',
        match value {
            Some(v) => response_line(status, value).last() == v.last(),
            None => {
                ||| response_line(status, value).last() == '-'
                ||| '0' <= response_line(status, value).last() <= '9'
            },
        },
{
    reveal_strlit("resp ");
    text::lemma_decimal_int_chars(status as int);
    let number = text::decimal_int(status as int);
    if value is None {
        assert(response_line(status, value).last() == number[number.len() - 1]);
    }
}

/// The parts of a response: the word, the number up to the first blank, and the rest.
proof fn lemma_response_parts(status: i32, value: Option<Seq<char>>)
    ensures
        "resp "@.is_prefix_of(response_line(status, value)),
        ({
            let rest = response_line(status, value).skip(5);
            let blank = text::position(rest, ' ', 0);
            &&& rest.take(blank) == text::decimal_int(status as int)
            &&& match value {
                Some(v) => blank < rest.len() && rest.skip(blank + 1) == v,
                None => blank == rest.len(),
            }
        }),
{
    reveal_strlit("resp ");
    text::lemma_decimal_int_chars(status as int);
    let line = response_line(status, value);
    let number = text::decimal_int(status as int);
    let rest = line.skip(5);
    assert("resp "@.len() == 5);
    assert(line.subrange(0, 5) =~= "resp "@);
    text::lemma_position(rest, ' ', 0);
    let blank = text::position(rest, ' ', 0);
    assert(rest.take(number.len() as int) =~= number);
    assert forall|k: int| 0 <= k < number.len() implies rest[k] != ' ' by {
        assert(rest[k] == number[k]);
    }
    match value {
        Some(v) => {
            assert(rest[number.len() as int] == ' ');
            assert(blank == number.len());
            assert(rest.skip(blank + 1) =~= v);
        },
        None => {
            assert(rest =~= number);
            assert(blank == rest.len());
        },
    }
}

proof fn lemma_bits_set(b: u8)
    by (bit_vector)
    ensures
        0x80u8 | b != 0,
        0xC0u8 | b != 0,
        0xE0u8 | b != 0,
        0xF0u8 | b != 0,
{
}

proof fn lemma_low_bits(scalar: u32)
    by (bit_vector)
    requires
        0 < scalar <= 0x7F,
    ensures
        (scalar & 0x7F) as u8 != 0,
{
}

proof fn lemma_scalar_has_no_null(scalar: u32)
    requires
        scalar != 0,
    ensures
        !vstd::utf8::encode_scalar(scalar).contains(0),
{
    if scalar <= 0x7F {
        lemma_low_bits(scalar);
    }
    lemma_bits_set((scalar & 0x3F) as u8);
    lemma_bits_set(((scalar >> 6) & 0x3F) as u8);
    lemma_bits_set(((scalar >> 6) & 0x1F) as u8);
    lemma_bits_set(((scalar >> 12) & 0x3F) as u8);
    lemma_bits_set(((scalar >> 12) & 0x0F) as u8);
    lemma_bits_set(((scalar >> 18) & 0x7) as u8);
}

proof fn lemma_text_has_no_null(s: Seq<char>)
    requires
        !s.contains('\0'),
    ensures
        !vstd::utf8::encode_utf8(s).contains(0),
    decreases s.len(),
{
    if s.len() > 0 {
        let first = vstd::utf8::encode_scalar(s[0] as u32);
        let rest = vstd::utf8::encode_utf8(s.drop_first());
        assert(s.contains(s[0]));
        vstd::utf8::char_u32_cast(s[0], s[0] as u32);
        lemma_scalar_has_no_null(s[0] as u32);
        assert forall|i: int| 0 <= i < s.drop_first().len() implies s.drop_first()[i] != '\0' by {
            assert(s.contains(s[i + 1]));
        }
        lemma_text_has_no_null(s.drop_first());
        assert forall|i: int| 0 <= i < (first + rest).len() implies (first + rest)[i] != 0 by {
            if i < first.len() {
                assert(first.contains(first[i]));
            } else {
                assert(rest.contains(rest[i - first.len()]));
            }
        }
    }
}

proof fn lemma_response_has_no_null(status: i32, value: Option<Seq<char>>)
    requires
        value matches Some(v) ==> !v.contains('\0'),
    ensures
        !response_line(status, value).contains('\0'),
{
    reveal_strlit("resp ");
    text::lemma_decimal_int_chars(status as int);
    let number = text::decimal_int(status as int);
    let line = response_line(status, value);
    assert forall|k: int| 0 <= k < line.len() implies line[k] != '\0' by {
        if 5 <= k < 5 + number.len() {
            assert(line[k] == number[k - 5]);
        } else if k > 5 + number.len() {
            let v = value->0;
            assert(line[k] == v[k - 6 - number.len()]);
            assert(v.contains(v[k - 6 - number.len()]));
        }
    }
}

/// A response that follows the protocol reads back, whatever bytes come after its terminator: a
/// negative status as mod-host's error with its meaning, any other with the status and the value. A
/// value is not empty, does not end in white space, and does not hold the terminator.
pub proof fn law_response_reads_back(status: i32, value: Option<Seq<char>>, after: Seq<u8>)
    requires
        value matches Some(v) ==> v.len() > 0 && !text::is_white_space(v.last()) && !v.contains(
            '\0',
        ),
    ensures
        ({
            let buf = vstd::utf8::encode_utf8(response_line(status, value)).push(0) + after;
            &&& vstd::utf8::valid_utf8(first_response(buf))
            &&& parsed_response(vstd::utf8::decode_utf8(first_response(buf))) == (if status < 0 {
                Err::<ResponseView, ErrorView>(
                    ErrorView::ModHost { code: status, message: error_meaning(status as int) },
                )
            } else {
                Ok(ResponseView { status, value })
            })
        }),
{
    let line = response_line(status, value);
    let bytes = vstd::utf8::encode_utf8(line);
    let buf = bytes.push(0) + after;
    lemma_response_line(status, value);
    lemma_response_has_no_null(status, value);
    lemma_text_has_no_null(line);
    lemma_null_at(buf, 0);
    assert(buf[bytes.len() as int] == 0);
    assert(null_at(buf, 0) == bytes.len()) by {
        let at = null_at(buf, 0);
        if at < bytes.len() {
            assert(bytes[at] == buf[at]);
        }
    }
    assert(first_response(buf) =~= bytes);
    vstd::utf8::encode_utf8_valid_utf8(line);
    vstd::utf8::encode_utf8_decode_utf8(line);
    text::law_trim_keeps(line);
    lemma_response_parts(status, value);
    text::law_decimal_int_reads_back(status as int, i32::MIN as int, i32::MAX as int);
}

/// A success has a status that is not negative; the only failures of a response that came are
/// that it does not follow the protocol and that mod-host reports an error of its own, under a
/// negative code and with the meaning of that code.
pub proof fn law_statuses(raw: Seq<char>)
    ensures
        match parsed_response(raw) {
            Ok(response) => response.status >= 0,
            Err(ErrorView::ModHost { code, message }) => code < 0 && message == error_meaning(
                code as int,
            ),
            Err(ErrorView::InvalidResponse(line)) => line == text::trimmed(raw),
            Err(_) => false,
        },
{
}

/// There is no line feed in `s`.
pub open spec fn single_line(s: Seq<char>) -> bool {
    forall|i: int| 0 <= i < s.len() ==> #[trigger] s[i] != '\n'
}

/// What goes over the wire is the command and one line feed: it decodes to just that.
pub proof fn law_wire_reads_back(command: Seq<char>)
    ensures
        vstd::utf8::valid_utf8(wire(command)),
        vstd::utf8::decode_utf8(wire(command)) == command.push('\n'),
{
    reveal_strlit("\n");
    assert(command + "\n"@ =~= command.push('\n'));
    vstd::utf8::encode_utf8_valid_utf8(command + "\n"@);
    vstd::utf8::encode_utf8_decode_utf8(command + "\n"@);
}

/// Where no argument holds a line feed, no command does: each is one line to mod-host.
pub proof fn law_commands_are_single_lines(id: u32, a: Seq<char>, b: Seq<char>, flag: bool)
    requires
        single_line(a),
        single_line(b),
    ensures
        single_line(add_command(a, id)),
        single_line(remove_command(id)),
        single_line(preset_load_command(id, a)),
        single_line(param_set_command(id, a, b)),
        single_line(param_get_command(id, a)),
        single_line(bypass_command(id, flag)),
        single_line(connect_command(a, b)),
        single_line(disconnect_command(a, b)),
        single_line(bundle_add_command(a)),
        single_line(bundle_remove_command(a)),
{
    text::lemma_decimal_int_chars(id as int);
    reveal_strlit("add ");
    reveal_strlit(" ");
    reveal_strlit("remove ");
    reveal_strlit("preset_load ");
    reveal_strlit("param_set ");
    reveal_strlit("param_get ");
    reveal_strlit("bypass ");
    reveal_strlit(" 1");
    reveal_strlit(" 0");
    reveal_strlit("connect ");
    reveal_strlit("disconnect ");
    reveal_strlit("bundle_add ");
    reveal_strlit("bundle_remove ");
    reveal_strlit(" \"\"");
    let d = text::decimal(id as nat);
    assert(single_line(d)) by {
        assert forall|k: int| 0 <= k < d.len() implies #[trigger] d[k] != '\n' by {
            assert(text::decimal_int(id as int)[k] == d[k]);
        }
    }
}

/// The parts of `s` between blanks, at most `n` of them: the last one holds what is left.
pub open spec fn fields(s: Seq<char>, n: nat) -> Seq<Seq<char>>
    decreases n,
{
    let blank = text::position(s, ' ', 0);
    if n <= 1 || blank >= s.len() {
        seq![s]
    } else {
        seq![s.take(blank)] + fields(s.skip(blank + 1), (n - 1) as nat)
    }
}

/// There is no blank in `s`.
pub open spec fn one_word(s: Seq<char>) -> bool {
    !s.contains(' ')
}

/// `s` reads as that instance.
pub open spec fn is_instance(s: Seq<char>, id: u32) -> bool {
    text::unsigned_number(s, u32::MAX as nat) == Some(id as nat)
}

proof fn lemma_field(a: Seq<char>, b: Seq<char>, n: nat)
    requires
        one_word(a),
        n >= 2,
    ensures
        fields(a + seq![' '] + b, n) == seq![a] + fields(b, (n - 1) as nat),
{
    let s = a + seq![' '] + b;
    text::lemma_position(s, ' ', 0);
    let blank = text::position(s, ' ', 0);
    assert(s[a.len() as int] == ' ');
    if blank < a.len() {
        assert(a[blank] == s[blank]);
        assert(a.contains(' '));
    }
    assert(blank == a.len());
    assert(s.take(blank) =~= a);
    assert(s.skip(blank + 1) =~= b);
}

proof fn lemma_last_field(s: Seq<char>, n: nat)
    requires
        n <= 1 || one_word(s),
    ensures
        fields(s, n) == seq![s],
{
    text::lemma_position(s, ' ', 0);
    let blank = text::position(s, ' ', 0);
    if blank < s.len() {
        assert(s.contains(s[blank]));
    }
}

proof fn lemma_instance_word(id: u32)
    ensures
        one_word(text::decimal(id as nat)),
        is_instance(text::decimal(id as nat), id),
{
    text::law_decimal_reads_back(id as nat);
    text::lemma_decimal_int_chars(id as int);
    let d = text::decimal(id as nat);
    assert forall|k: int| 0 <= k < d.len() implies d[k] != ' ' by {
        assert(text::decimal_int(id as int)[k] == d[k]);
    }
}

/// A command with one more argument after its first two parts: the word and the instance.
proof fn lemma_instance_command(word: Seq<char>, id: u32, rest: Seq<char>, n: nat)
    requires
        one_word(word),
        n >= 3,
    ensures
        ({
            let d = text::decimal(id as nat);
            &&& fields(word + seq![' '] + (d + seq![' '] + rest), n) == seq![word, d] + fields(
                rest,
                (n - 2) as nat,
            )
            &&& is_instance(d, id)
        }),
{
    let d = text::decimal(id as nat);
    lemma_instance_word(id);
    lemma_field(word, d + seq![' '] + rest, n);
    lemma_field(d, rest, (n - 1) as nat);
    assert(seq![word] + (seq![d] + fields(rest, (n - 2) as nat)) =~= seq![word, d] + fields(
        rest,
        (n - 2) as nat,
    ));
}

/// The command that sets a parameter has four parts: the word, a number that reads back as the
/// instance, the symbol and the value. A symbol is one word.
pub proof fn law_param_set_says_what_to_set(id: u32, symbol: Seq<char>, value: Seq<char>)
    requires
        one_word(symbol),
    ensures
        ({
            let parts = fields(param_set_command(id, symbol, value), 4);
            &&& parts.len() == 4
            &&& parts[0] == "param_set"@
            &&& is_instance(parts[1], id)
            &&& parts[2] == symbol
            &&& parts[3] == value
        }),
{
    reveal_strlit("param_set ");
    reveal_strlit("param_set");
    reveal_strlit(" ");
    let d = text::decimal(id as nat);
    let rest = symbol + seq![' '] + value;
    assert(param_set_command(id, symbol, value) =~= "param_set"@ + seq![' '] + (d + seq![' ']
        + rest));
    lemma_instance_command("param_set"@, id, rest, 4);
    lemma_field(symbol, value, 2);
    lemma_last_field(value, 1);
}

/// Commands that set parameters differ where the instance, the symbol or the value does. Symbols are
/// one word each.
pub proof fn law_param_sets_differ(
    id_a: u32,
    symbol_a: Seq<char>,
    value_a: Seq<char>,
    id_b: u32,
    symbol_b: Seq<char>,
    value_b: Seq<char>,
)
    requires
        one_word(symbol_a),
        one_word(symbol_b),
        param_set_command(id_a, symbol_a, value_a) == param_set_command(id_b, symbol_b, value_b),
    ensures
        id_a == id_b,
        symbol_a == symbol_b,
        value_a == value_b,
{
    law_param_set_says_what_to_set(id_a, symbol_a, value_a);
    law_param_set_says_what_to_set(id_b, symbol_b, value_b);
}

/// The commands about an instance name it: their second part reads back as it, and what follows is
/// the argument as it was given.
pub proof fn law_instance_commands_name_the_instance(
    id: u32,
    argument: Seq<char>,
    bypassed: bool,
)
    ensures
        ({
            let parts = fields(preset_load_command(id, argument), 3);
            &&& parts.len() == 3
            &&& parts[0] == "preset_load"@
            &&& is_instance(parts[1], id)
            &&& parts[2] == argument
        }),
        ({
            let parts = fields(param_get_command(id, argument), 3);
            &&& parts.len() == 3
            &&& parts[0] == "param_get"@
            &&& is_instance(parts[1], id)
            &&& parts[2] == argument
        }),
        ({
            let parts = fields(bypass_command(id, bypassed), 3);
            &&& parts.len() == 3
            &&& parts[0] == "bypass"@
            &&& is_instance(parts[1], id)
            &&& bypassed ==> parts[2] == "1"@
            &&& !bypassed ==> parts[2] == "0"@
        }),
        ({
            let parts = fields(remove_command(id), 2);
            &&& parts.len() == 2
            &&& parts[0] == "remove"@
            &&& is_instance(parts[1], id)
        }),
{
    reveal_strlit("preset_load ");
    reveal_strlit("preset_load");
    reveal_strlit("param_get ");
    reveal_strlit("param_get");
    reveal_strlit("bypass ");
    reveal_strlit("bypass");
    reveal_strlit("remove ");
    reveal_strlit("remove");
    reveal_strlit(" ");
    reveal_strlit(" 1");
    reveal_strlit(" 0");
    reveal_strlit("1");
    reveal_strlit("0");
    let d = text::decimal(id as nat);
    lemma_instance_word(id);
    assert(preset_load_command(id, argument) =~= "preset_load"@ + seq![' '] + (d + seq![' ']
        + argument));
    lemma_instance_command("preset_load"@, id, argument, 3);
    assert(param_get_command(id, argument) =~= "param_get"@ + seq![' '] + (d + seq![' ']
        + argument));
    lemma_instance_command("param_get"@, id, argument, 3);
    lemma_last_field(argument, 1);
    let flag = if bypassed {
        "1"@
    } else {
        "0"@
    };
    assert(bypass_command(id, bypassed) =~= "bypass"@ + seq![' '] + (d + seq![' '] + flag));
    lemma_instance_command("bypass"@, id, flag, 3);
    lemma_last_field(flag, 1);
    assert(remove_command(id) =~= "remove"@ + seq![' '] + d);
    lemma_field("remove"@, d, 2);
    lemma_last_field(d, 1);
}

/// The command that adds a plugin names the plugin and the instance, those that connect and
/// disconnect name the two ports, and those about bundles name the path. URIs, the first of two
/// ports and the path of a bundle that is unregistered are one word each.
pub proof fn law_commands_name_their_arguments(
    uri: Seq<char>,
    id: u32,
    from: Seq<char>,
    to: Seq<char>,
    path: Seq<char>,
)
    requires
        one_word(uri),
        one_word(from),
    ensures
        ({
            let parts = fields(add_command(uri, id), 3);
            &&& parts.len() == 3
            &&& parts[0] == "add"@
            &&& parts[1] == uri
            &&& is_instance(parts[2], id)
        }),
        fields(connect_command(from, to), 3) == seq!["connect"@, from, to],
        fields(disconnect_command(from, to), 3) == seq!["disconnect"@, from, to],
        fields(bundle_add_command(path), 2) == seq!["bundle_add"@, path],
        one_word(path) ==> fields(bundle_remove_command(path), 3) == seq![
            "bundle_remove"@,
            path,
            "\"\""@,
        ],
{
    reveal_strlit("add ");
    reveal_strlit("add");
    reveal_strlit("connect ");
    reveal_strlit("connect");
    reveal_strlit("disconnect ");
    reveal_strlit("disconnect");
    reveal_strlit("bundle_add ");
    reveal_strlit("bundle_add");
    reveal_strlit("bundle_remove ");
    reveal_strlit("bundle_remove");
    reveal_strlit(" ");
    reveal_strlit(" \"\"");
    reveal_strlit("\"\"");
    let d = text::decimal(id as nat);
    lemma_instance_word(id);
    assert(add_command(uri, id) =~= "add"@ + seq![' '] + (uri + seq![' '] + d));
    lemma_field("add"@, uri + seq![' '] + d, 3);
    lemma_field(uri, d, 2);
    lemma_last_field(d, 1);
    let ports = from + seq![' '] + to;
    assert(connect_command(from, to) =~= "connect"@ + seq![' '] + ports);
    assert(disconnect_command(from, to) =~= "disconnect"@ + seq![' '] + ports);
    lemma_field("connect"@, ports, 3);
    lemma_field("disconnect"@, ports, 3);
    lemma_field(from, to, 2);
    lemma_last_field(to, 1);
    assert(fields(connect_command(from, to), 3) =~= seq!["connect"@, from, to]);
    assert(fields(disconnect_command(from, to), 3) =~= seq!["disconnect"@, from, to]);
    assert(bundle_add_command(path) =~= "bundle_add"@ + seq![' '] + path);
    lemma_field("bundle_add"@, path, 2);
    lemma_last_field(path, 1);
    assert(fields(bundle_add_command(path), 2) =~= seq!["bundle_add"@, path]);
    if one_word(path) {
        let none = "\"\""@;
        assert(bundle_remove_command(path) =~= "bundle_remove"@ + seq![' '] + (path + seq![' ']
            + none));
        lemma_field("bundle_remove"@, path + seq![' '] + none, 3);
        lemma_field(path, none, 2);
        lemma_last_field(none, 1);
        assert(fields(bundle_remove_command(path), 3) =~= seq!["bundle_remove"@, path, none]);
    }
}

/// Whatever the arguments hold, blanks too, a command is its words and arguments with single blanks
/// between them, with a number that reads back as the instance.
pub proof fn law_commands_hold_their_arguments(
    id: u32,
    a: Seq<char>,
    b: Seq<char>,
)
    ensures
        exists|d: Seq<char>|
            {
                &&& #[trigger] is_instance(d, id)
                &&& param_set_command(id, a, b) == "param_set "@ + d + " "@ + a + " "@ + b
                &&& param_get_command(id, a) == "param_get "@ + d + " "@ + a
                &&& preset_load_command(id, a) == "preset_load "@ + d + " "@ + a
                &&& add_command(a, id) == "add "@ + a + " "@ + d
            },
        ("connect "@ + a + " "@).is_prefix_of(connect_command(a, b)),
        connect_command(a, b).skip(("connect "@ + a + " "@).len() as int) == b,
        disconnect_command(a, b) == "dis"@ + connect_command(a, b),
        bundle_remove_command(a) == "bundle_remove "@ + a + " \"\""@,
{
    lemma_instance_word(id);
    let d = text::decimal(id as nat);
    assert(is_instance(d, id));
    reveal_strlit("connect ");
    reveal_strlit("disconnect ");
    reveal_strlit("dis");
    reveal_strlit(" ");
    let whole = connect_command(a, b);
    let front = "connect "@ + a + " "@;
    assert(whole.subrange(0, front.len() as int) =~= front);
    assert(whole.skip(front.len() as int) =~= b);
    assert(disconnect_command(a, b) =~= "dis"@ + whole);
}

/// What people read of an error holds what the system, mod-host or the response said, as it was
/// said, behind words that tell the kinds of error apart.
pub proof fn law_error_texts_hold_the_cause(cause: Seq<char>, code: i32)
    ensures
        error_text(ErrorView::Connect(cause)) == "connection failed: "@ + cause,
        error_text(ErrorView::InvalidResponse(cause)) == "invalid response: "@ + cause,
        exists|d: Seq<char>|
            {
                &&& error_text(ErrorView::ModHost { code, message: cause }) == "mod-host error "@
                    + d + ": "@ + cause
                &&& #[trigger] text::signed_number(d, i32::MIN as int, i32::MAX as int) == Some(
                    code as int,
                )
            },
{
    text::law_decimal_int_reads_back(code as int, i32::MIN as int, i32::MAX as int);
    assert(text::signed_number(
        text::decimal_int(code as int),
        i32::MIN as int,
        i32::MAX as int,
    ) == Some(code as int));
}

/// A code that mod-host does not define is an unknown error.
pub proof fn law_undefined_codes_are_unknown(code: int)
    requires
        !(-4 <= code <= -1),
        !(-105 <= code <= -101),
        !(-207 <= code <= -201),
        !(-902 <= code <= -901),
    ensures
        error_meaning(code) == "unknown error"@,
{
}

/// What a success says stands in the response: behind `resp` and a blank stands a number without
/// blanks that reads as the status, which is not negative, and behind one more blank the value, or
/// nothing where there is no value.
pub proof fn law_success_is_in_the_response(raw: Seq<char>)
    requires
        parsed_response(raw) is Ok,
    ensures
        ({
            let response = parsed_response(raw)->Ok_0;
            exists|d: Seq<char>|
                {
                    &&& one_word(d)
                    &&& #[trigger] text::signed_number(d, i32::MIN as int, i32::MAX as int) == Some(
                        response.status as int,
                    )
                    &&& response.status >= 0
                    &&& text::trimmed(raw) == "resp "@ + d + (match response.value {
                        Some(v) => seq![' '] + v,
                        None => Seq::empty(),
                    })
                }
        }),
{
    reveal_strlit("resp ");
    let line = text::trimmed(raw);
    let rest = line.skip(5);
    let blank = text::position(rest, ' ', 0);
    text::lemma_position(rest, ' ', 0);
    let d = rest.take(blank);
    assert(line.subrange(0, 5) == "resp "@);
    assert(line =~= "resp "@ + rest);
    assert forall|k: int| 0 <= k < d.len() implies d[k] != ' ' by {
        assert(d[k] == rest[k]);
    }
    let response = parsed_response(raw)->Ok_0;
    if blank < rest.len() {
        assert(rest =~= d + (seq![' '] + rest.skip(blank + 1)));
        assert(line =~= "resp "@ + d + (seq![' '] + response.value->0));
    } else {
        assert(rest =~= d);
        assert(line =~= "resp "@ + d + Seq::<char>::empty());
    }
    assert(text::signed_number(d, i32::MIN as int, i32::MAX as int) == Some(
        response.status as int,
    ));
}

/// A response is read by its parts: a number without blanks behind `resp` and a blank, and what is
/// behind one more blank. A number that does not read as one makes the response invalid, a negative
/// one is an error of mod-host, any other is the status. White space around the response does not
/// count, so it is given without.
pub proof fn law_response_by_its_parts(number: Seq<char>, value: Option<Seq<char>>)
    requires
        one_word(number),
        text::trimmed(
            "resp "@ + number + (match value {
                Some(v) => seq![' '] + v,
                None => Seq::empty(),
            }),
        ) == "resp "@ + number + (match value {
            Some(v) => seq![' '] + v,
            None => Seq::empty(),
        }),
    ensures
        ({
            let line = "resp "@ + number + (match value {
                Some(v) => seq![' '] + v,
                None => Seq::empty(),
            });
            match text::signed_number(number, i32::MIN as int, i32::MAX as int) {
                None => parsed_response(line) == Err::<ResponseView, ErrorView>(
                    ErrorView::InvalidResponse(line),
                ),
                Some(n) => if n < 0 {
                    parsed_response(line) matches Err(ErrorView::ModHost { code, .. }) && code == n
                } else {
                    parsed_response(line) matches Ok(response) && response.status == n
                        && response.value == value
                },
            }
        }),
{
    reveal_strlit("resp ");
    let tail = match value {
        Some(v) => seq![' '] + v,
        None => Seq::empty(),
    };
    let line = "resp "@ + number + tail;
    let rest = line.skip(5);
    assert("resp "@.len() == 5);
    assert(line.subrange(0, 5) =~= "resp "@);
    assert(rest =~= number + tail);
    text::lemma_position(rest, ' ', 0);
    let blank = text::position(rest, ' ', 0);
    if blank < number.len() {
        assert(number[blank] == rest[blank]);
        assert(number.contains(' '));
    }
    if let Some(v) = value {
        assert(rest[number.len() as int] == ' ');
        assert(blank == number.len());
        assert(rest.skip(blank + 1) =~= v);
    } else {
        assert(blank == rest.len());
    }
    assert(rest.take(blank) =~= number);
}

/// White space around a response does not count.
pub proof fn law_white_space_around_a_response(raw: Seq<char>)
    ensures
        parsed_response(raw) == parsed_response(text::trimmed(raw)),
{
    text::law_trim(raw);
}

/// What does not begin with `resp` and a blank is no response.
pub proof fn law_other_lines_are_invalid(raw: Seq<char>)
    requires
        !"resp "@.is_prefix_of(text::trimmed(raw)),
    ensures
        parsed_response(raw) == Err::<ResponseView, ErrorView>(
            ErrorView::InvalidResponse(text::trimmed(raw)),
        ),
{
}

/// There is no result before a null byte has come.
pub proof fn law_no_result_before_the_null_byte(buf: Seq<u8>, reads: Seq<Seq<u8>>)
    requires
        !buf.contains(0),
        !reads.flatten().contains(0),
        forall|i: int| 0 <= i < reads.len() ==> (#[trigger] reads[i]).len() > 0,
    ensures
        read_all(buf, reads) is None,
    decreases reads.len(),
{
    if reads.len() > 0 {
        let rest = reads.drop_first();
        let all = buf + reads[0];
        let flat = reads.flatten();
        assert(flat =~= reads[0] + rest.flatten());
        assert forall|i: int| 0 <= i < all.len() implies all[i] != 0 by {
            if i < buf.len() {
                assert(buf.contains(buf[i]));
            } else {
                assert(flat[i - buf.len()] == all[i]);
                assert(flat.contains(flat[i - buf.len()]));
            }
        }
        assert forall|i: int| 0 <= i < rest.flatten().len() implies rest.flatten()[i] != 0 by {
            assert(flat[reads[0].len() + i] == rest.flatten()[i]);
            assert(flat.contains(flat[reads[0].len() + i]));
        }
        assert forall|i: int| 0 <= i < rest.len() implies (#[trigger] rest[i]).len() > 0 by {
            assert(rest[i] == reads[i + 1]);
        }
        law_no_result_before_the_null_byte(all, rest);
    }
}

/// A connection that is closed before the null byte came is an error, whatever was read.
pub proof fn law_closed_connection(buf: Seq<u8>)
    ensures
        after_data(buf, Seq::empty()).1 matches Some(Err(ErrorView::Connect(cause))) && cause
            == "connection closed"@,
{
}

/// A query for a number has one answer: the error, where there is one, else the number, where the
/// response has a value that reads as one, else a complaint.
pub proof fn law_number_answers(
    response: ResponseView,
    error: ErrorView,
    number: Number,
    complaint: Seq<char>,
    r: Result<Number, Error>,
)
    ensures
        number_answer(Err(error), Some(number), complaint, r) ==> r is Err && r->Err_0.deep_view()
            == error,
        response.value is Some && number_answer(Ok(response), Some(number), complaint, r) ==> r
            == Ok::<Number, Error>(number),
        (response.value is None && number_answer(Ok(response), Some(number), complaint, r))
            || number_answer(Ok(response), None, complaint, r) ==> r is Err
            && r->Err_0.deep_view() == ErrorView::InvalidResponse(complaint),
{
}

} // verus!
