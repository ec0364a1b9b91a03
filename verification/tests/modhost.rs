use pedalboard_bridge::audio::Action;
use pedalboard_bridge::modhost::{error_message, Exchange, Number, ReadEvent, ReadStep, Timeout};
use pedalboard_bridge::{Error, ModHostClient, Response};

fn connected() -> ModHostClient {
    ModHostClient::connect(Ok(())).unwrap()
}

fn finished(step: ReadStep) -> Result<Response, Error> {
    match step {
        ReadStep::Finished(result) => result,
        ReadStep::More => panic!("the exchange is not over"),
    }
}

fn line(request: Result<Vec<u8>, Error>) -> String {
    String::from_utf8(request.unwrap()).unwrap()
}

#[test]
fn commands_on_the_wire() {
    let client = connected();
    assert_eq!(line(client.send("help")), "help\n");
    assert_eq!(line(client.send("ä")), "ä\n");
    assert_eq!(line(client.add_plugin("http://example.com/amp", 3)), "add http://example.com/amp 3\n");
    assert_eq!(line(client.remove_plugin(4294967295)), "remove 4294967295\n");
    assert_eq!(line(client.preset_load(0, "http://p#1")), "preset_load 0 http://p#1\n");
    assert_eq!(line(client.param_set(0, "PREGAIN", "0.42")), "param_set 0 PREGAIN 0.42\n");
    assert_eq!(line(client.param_get(0, "PREGAIN")), "param_get 0 PREGAIN\n");
    assert_eq!(line(client.bypass(7, true)), "bypass 7 1\n");
    assert_eq!(line(client.bypass(7, false)), "bypass 7 0\n");
    assert_eq!(line(client.connect_ports("a:out", "b:in")), "connect a:out b:in\n");
    assert_eq!(line(client.disconnect_ports("a:out", "b:in")), "disconnect a:out b:in\n");
    assert_eq!(line(client.bundle_add("/tmp/x.lv2")), "bundle_add /tmp/x.lv2\n");
    assert_eq!(line(client.bundle_remove("/tmp/x.lv2")), "bundle_remove /tmp/x.lv2 \"\"\n");
    assert_eq!(line(client.cpu_load()), "cpu_load\n");
    let removal = client.remove_all().unwrap();
    assert_eq!(removal.bytes, b"remove -1\n");
    assert_eq!(removal.settle_millis, 100);
    assert_eq!(removal.drain_millis, 200);
    assert_eq!(removal.drain_bytes, 256);
}

#[test]
fn nothing_is_sent_without_a_connection() {
    let client = ModHostClient::disconnected();
    assert!(!client.is_connected());
    assert!(matches!(client.send("help"), Err(Error::NotConnected)));
    assert!(matches!(client.bypass(0, true), Err(Error::NotConnected)));
    assert!(matches!(client.remove_all(), Err(Error::NotConnected)));
}

#[test]
fn connecting() {
    let mut client = connected();
    assert!(client.is_connected());
    assert_eq!(client.timeout(), Timeout { secs: 30, nanos: 0 });
    client.set_timeout(Timeout { secs: 1, nanos: 5 });
    assert_eq!(client.timeout(), Timeout { secs: 1, nanos: 5 });
    assert!(client.is_connected());
    let refused = ModHostClient::connect(Err("Connection refused (os error 111)".to_string()));
    assert_eq!(refused.unwrap_err().describe(), "connection failed: Connection refused (os error 111)");
}

#[test]
fn responses() {
    let response = ModHostClient::parse_response("resp 0 0.42").unwrap();
    assert_eq!(response.status, 0);
    assert_eq!(response.value.as_deref(), Some("0.42"));
    let response = ModHostClient::parse_response("  resp 7 a b c \n").unwrap();
    assert_eq!(response.status, 7);
    assert_eq!(response.value.as_deref(), Some("a b c"));
    let response = ModHostClient::parse_response("resp +3").unwrap();
    assert_eq!(response.status, 3);
    assert_eq!(response.value, None);
    let response = ModHostClient::parse_response("resp 0  x").unwrap();
    assert_eq!(response.value.as_deref(), Some(" x"));
}

#[test]
fn invalid_responses() {
    for raw in ["", "resp", "resp ", "respx 0", "resp x", "resp  0", "resp 2147483648", "0 resp 0"] {
        match ModHostClient::parse_response(raw) {
            Err(Error::InvalidResponse(said)) => assert_eq!(said, raw.trim()),
            other => panic!("{other:?}"),
        }
    }
}

#[test]
fn negative_statuses_are_errors() {
    match ModHostClient::parse_response("resp -103") {
        Err(Error::ModHost { code, message }) => {
            assert_eq!(code, -103);
            assert_eq!(message, "invalid parameter symbol");
        }
        other => panic!("{other:?}"),
    }
    match ModHostClient::parse_response("resp -3 ignored") {
        Err(e) => assert_eq!(e.describe(), "mod-host error -3: instance does not exist"),
        other => panic!("{other:?}"),
    }
}

#[test]
fn error_texts() {
    let known = [
        (-1, "instance invalid"),
        (-2, "instance already exists"),
        (-3, "instance does not exist"),
        (-4, "instance unlicensed"),
        (-101, "invalid LV2 URI"),
        (-102, "LV2 instantiation failed"),
        (-103, "invalid parameter symbol"),
        (-104, "invalid preset URI"),
        (-105, "can't load state"),
        (-201, "JACK client creation failed"),
        (-202, "JACK client activation failed"),
        (-203, "JACK client deactivation failed"),
        (-204, "JACK port register failed"),
        (-205, "JACK port connection failed"),
        (-206, "JACK port disconnection failed"),
        (-207, "JACK value out of range"),
        (-901, "memory allocation failed"),
        (-902, "invalid operation"),
    ];
    for (code, message) in known {
        assert_eq!(error_message(code), message);
    }
    assert_eq!(error_message(-5), "unknown error");
    assert_eq!(error_message(0), "unknown error");
    assert_eq!(Error::Timeout.describe(), "timeout waiting for response");
    assert_eq!(Error::NotConnected.describe(), "not connected");
    assert_eq!(Error::InvalidResponse("x".to_string()).describe(), "invalid response: x");
}

#[test]
fn response_comes_in_pieces() {
    let mut exchange = Exchange::new();
    assert!(matches!(exchange.on_read(ReadEvent::Data(b"re".to_vec())), ReadStep::More));
    assert!(matches!(exchange.on_read(ReadEvent::Data(b"sp 0 1.5".to_vec())), ReadStep::More));
    let response = finished(exchange.on_read(ReadEvent::Data(b"\0".to_vec()))).unwrap();
    assert_eq!(response.status, 0);
    assert_eq!(response.value.as_deref(), Some("1.5"));
}

#[test]
fn response_ends_at_its_null_byte() {
    let mut exchange = Exchange::new();
    let response = finished(exchange.on_read(ReadEvent::Data(b"resp 0\0resp 0 1.5\0".to_vec()))).unwrap();
    assert_eq!(response.status, 0);
    assert_eq!(response.value, None);

    let mut exchange = Exchange::new();
    let response = finished(exchange.on_read(ReadEvent::Data(b"resp 3 a b\0\xFF\0".to_vec()))).unwrap();
    assert_eq!(response.status, 3);
    assert_eq!(response.value.as_deref(), Some("a b"));

    let mut exchange = Exchange::new();
    match finished(exchange.on_read(ReadEvent::Data(b"\0resp 0\0".to_vec()))) {
        Err(Error::InvalidResponse(said)) => assert_eq!(said, ""),
        other => panic!("{other:?}"),
    }
}

#[test]
fn cut_of_a_reply_makes_no_difference() {
    let reply = b" resp 7 gr\xFCn \xC3\xBC \0resp -1\0";
    for first in 1..reply.len() {
        for second in first..reply.len() {
            let mut exchange = Exchange::new();
            let mut result = None;
            for piece in [&reply[..first], &reply[first..second], &reply[second..]] {
                if result.is_none() && !piece.is_empty() {
                    if let ReadStep::Finished(r) = exchange.on_read(ReadEvent::Data(piece.to_vec())) {
                        result = Some(r);
                    }
                }
            }
            let response = result.unwrap().unwrap();
            assert_eq!(response.status, 7);
            assert_eq!(response.value.as_deref(), Some("gr\u{FFFD}n ü"));
        }
    }
}

#[test]
fn commands_of_the_audio_engine() {
    let client = connected();
    let command = |action: Action| client.command_for(&action, "0.42").map(line);
    let text = |s: &str| s.to_string();
    assert_eq!(command(Action::AddPlugin { uri: text("urn:amp"), id: 3 }), Some(text("add urn:amp 3\n")));
    assert_eq!(
        command(Action::ConnectPorts { from: text("a"), to: text("b") }),
        Some(text("connect a b\n"))
    );
    assert_eq!(command(Action::BundleAdd { path: text("/b") }), Some(text("bundle_add /b\n")));
    assert_eq!(
        command(Action::PresetLoad { id: 1, uri: text("urn:p") }),
        Some(text("preset_load 1 urn:p\n"))
    );
    assert_eq!(command(Action::Bypass { id: 2, bypassed: false }), Some(text("bypass 2 0\n")));
    let value = Number { bits: 0.42f64.to_bits() };
    assert_eq!(
        command(Action::ParamSet { id: 0, symbol: text("GAIN"), value }),
        Some(text("param_set 0 GAIN 0.42\n"))
    );
    assert_eq!(command(Action::RemoveAll), None);
    assert_eq!(command(Action::Pause { millis: 100 }), None);
    assert_eq!(command(Action::RigLoaded), None);
    assert_eq!(command(Action::Activate { name: text("Clean") }), None);
    let lost = ModHostClient::disconnected();
    assert!(matches!(
        lost.command_for(&Action::Bypass { id: 2, bypassed: true }, ""),
        Some(Err(Error::NotConnected))
    ));
}

#[test]
fn bytes_that_are_no_text_are_replaced() {
    let mut exchange = Exchange::new();
    let response = finished(exchange.on_read(ReadEvent::Data(b"resp 0 a\xFFb\0".to_vec()))).unwrap();
    assert_eq!(response.value.as_deref(), Some("a\u{FFFD}b"));
    let mut exchange = Exchange::new();
    let response = finished(exchange.on_read(ReadEvent::Data("resp 0 grün\0".as_bytes().to_vec()))).unwrap();
    assert_eq!(response.value.as_deref(), Some("grün"));
}

#[test]
fn broken_exchanges() {
    let mut exchange = Exchange::new();
    let closed = finished(exchange.on_read(ReadEvent::Data(vec![])));
    assert_eq!(closed.unwrap_err().describe(), "connection failed: connection closed");
    let failed = finished(exchange.on_read(ReadEvent::Failed("reset".to_string())));
    assert_eq!(failed.unwrap_err().describe(), "connection failed: reset");
    assert!(matches!(finished(exchange.on_read(ReadEvent::TimedOut)), Err(Error::Timeout)));
}

#[test]
fn numbers_in_answers() {
    let half = Number { bits: 0.5f64.to_bits() };
    let answer = ModHostClient::parse_response("resp 0 0.5");
    assert_eq!(ModHostClient::param_value(answer, Some(half)).unwrap(), half);
    let answer = ModHostClient::parse_response("resp 0");
    assert_eq!(ModHostClient::param_value(answer, None).unwrap_err().describe(), "invalid response: missing value");
    let answer = ModHostClient::parse_response("resp 0 x");
    assert_eq!(
        ModHostClient::cpu_load_value(answer, None).unwrap_err().describe(),
        "invalid response: missing cpu_load value"
    );
    let answer = ModHostClient::parse_response("resp -1");
    assert!(matches!(ModHostClient::cpu_load_value(answer, Some(half)), Err(Error::ModHost { code: -1, .. })));
    let answer = ModHostClient::parse_response("resp 0 0.5");
    assert_eq!(ModHostClient::cpu_load_value(answer, Some(half)).unwrap(), half);
}
