//! The stand-in for a controller: what it answers to, and what it prints of the exchange.
use vstd::prelude::*;

use crate::text;

verus! {

/// What came from the client of the stand-in.
#[derive(Debug)]
pub enum StubMessage {
    Binary(Vec<u8>),
    /// Anything else that is a message.
    Other,
    /// The connection failed.
    Broken,
}

/// What the stand-in does with it.
#[derive(Debug)]
pub enum StubStep {
    /// Process a SysEx message, and send the responses.
    Process(Vec<u8>),
    /// Nothing.
    Ignore,
    /// Leave the client.
    Stop,
}

/// Decides what to do with what came from the client.
pub fn handle_connection(message: StubMessage) -> (r: StubStep)
    ensures
        match message {
            StubMessage::Binary(data) => r == StubStep::Process(data),
            StubMessage::Other => r == StubStep::Ignore,
            StubMessage::Broken => r == StubStep::Stop,
        },
{
    match message {
        StubMessage::Binary(data) => StubStep::Process(data),
        StubMessage::Other => StubStep::Ignore,
        StubMessage::Broken => StubStep::Stop,
    }
}

/// What a request reads as.
#[derive(Debug)]
pub enum StubRequest {
    /// A request about the configuration, and how it is printed.
    Configuration(String),
    /// Another request, or none at all.
    Other,
}

/// Only requests about the configuration are printed.
pub fn print_request(request: &StubRequest) -> (r: Option<String>)
    ensures
        match request {
            StubRequest::Configuration(printed) => r.deep_view() == Some("← "@ + printed@),
            StubRequest::Other => r is None,
        },
{
    match request {
        StubRequest::Configuration(printed) => Some("← ".to_owned().concat(printed.as_str())),
        StubRequest::Other => None,
    }
}

/// The hexadecimal digit, in upper case, of value `d`.
pub open spec fn upper_hex_char(d: int) -> char {
    if d < 10 {
        text::digit_char(d)
    } else if d == 10 {
        'A'
    } else if d == 11 {
        'B'
    } else if d == 12 {
        'C'
    } else if d == 13 {
        'D'
    } else if d == 14 {
        'E'
    } else {
        'F'
    }
}

/// Bytes as pairs of upper-case hexadecimal digits with commas between them.
pub open spec fn hex_list(bytes: Seq<u8>) -> Seq<char>
    decreases bytes.len(),
{
    if bytes.len() == 0 {
        Seq::empty()
    } else {
        let before = hex_list(bytes.drop_last());
        let byte = bytes.last() as int;
        before + (if bytes.len() > 1 {
            ", "@
        } else {
            Seq::empty()
        }) + seq![upper_hex_char(byte / 16), upper_hex_char(byte % 16)]
    }
}

fn upper_hex(d: u8) -> (r: &'static str)
    requires
        d < 16,
    ensures
        r@ == seq![upper_hex_char(d as int)],
{
    proof {
        reveal_strlit("A");
        reveal_strlit("B");
        reveal_strlit("C");
        reveal_strlit("D");
        reveal_strlit("E");
        reveal_strlit("F");
    }
    if d < 10 {
        text::digit_text(d as u64)
    } else if d == 10 {
        "A"
    } else if d == 11 {
        "B"
    } else if d == 12 {
        "C"
    } else if d == 13 {
        "D"
    } else if d == 14 {
        "E"
    } else {
        "F"
    }
}

/// What is printed of a response. `parsed` is how the response is printed where it could be read.
pub open spec fn response_line(
    request: StubRequest,
    parsed: Option<Seq<char>>,
    response: Seq<u8>,
) -> Option<Seq<char>> {
    if request is Configuration {
        Some(
            "  → "@ + match parsed {
                Some(printed) => printed,
                None => "["@ + hex_list(response) + "]"@,
            },
        )
    } else {
        None
    }
}

/// The responses to a request about the configuration are printed: as what they read as, or else
/// byte by byte.
pub fn print_response(request: &StubRequest, parsed: Option<&str>, response: &[u8]) -> (r: Option<
    String,
>)
    ensures
        r.deep_view() == response_line(
            *request,
            match parsed {
                Some(printed) => Some(printed@),
                None => None,
            },
            response@,
        ),
{
    match request {
        StubRequest::Other => {
            return None;
        },
        StubRequest::Configuration(_) => {},
    }
    if let Some(printed) = parsed {
        return Some("  → ".to_owned().concat(printed));
    }
    let mut list = String::new();
    let mut i: usize = 0;
    assert(response@.take(0) =~= Seq::<u8>::empty());
    assert(list@ =~= Seq::<char>::empty());
    while i < response.len()
        invariant
            i <= response.len(),
            list@ == hex_list(response@.take(i as int)),
        decreases response.len() - i,
    {
        let ghost upto = response@.take(i + 1);
        assert(upto.drop_last() =~= response@.take(i as int));
        if i > 0 {
            list.append(", ");
        }
        list.append(upper_hex(response[i] / 16));
        list.append(upper_hex(response[i] % 16));
        i = i + 1;
        assert(list@ =~= hex_list(upto));
    }
    assert(response@.take(i as int) =~= response@);
    let mut line = "  → ".to_owned().concat("[");
    line.append(list.as_str());
    line.append("]");
    assert(line@ =~= "  → "@ + ("["@ + hex_list(response@) + "]"@));
    Some(line)
}

/// Responses are printed only for requests about the configuration, and then as what they read as.
pub proof fn law_configuration_is_printed(
    printed_request: String,
    printed: Seq<char>,
    response: Seq<u8>,
)
    ensures
        response_line(
            StubRequest::Configuration(printed_request),
            Some(printed),
            response,
        ) == Some("  → "@ + printed),
        response_line(
            StubRequest::Configuration(printed_request),
            None,
            response,
        ) == Some("  → "@ + ("["@ + hex_list(response) + "]"@)),
        response_line(StubRequest::Other, Some(printed), response) is None,
        response_line(StubRequest::Other, None, response) is None,
{
}

/// Bytes are listed one by one, with a comma and a blank between them, each as two digits: that of
/// its upper four bits, then that of its lower four.
pub proof fn law_bytes_one_by_one(bytes: Seq<u8>, byte: u8)
    ensures
        hex_list(Seq::empty()) == Seq::<char>::empty(),
        bytes.len() > 0 ==> hex_list(bytes.push(byte)) == hex_list(bytes) + ", "@ + hex_list(
            seq![byte],
        ),
        hex_list(seq![byte]) == seq![
            upper_hex_char(byte as int / 16),
            upper_hex_char(byte as int % 16),
        ],
{
    let one = seq![byte];
    assert(one.drop_last() =~= Seq::<u8>::empty());
    assert(hex_list(one.drop_last()) == Seq::<char>::empty());
    assert(hex_list(one) =~= seq![
        upper_hex_char(byte as int / 16),
        upper_hex_char(byte as int % 16),
    ]);
    assert(bytes.push(byte).drop_last() =~= bytes);
}

} // verus!
