use pedalboard_bridge::jack_midi::{find_ports_by_alias, port_exists, AutoConnect, PollAction, PollEvent};

const LISTING: &str = "system:capture_1
   alsa_pcm:capture_1
\t32 bit float mono audio
system:midi_capture_1
   alsa_pcm:Midi-Through/midi_capture_1
   Midi-Through-Port-0
\t8 bit raw midi
system:midi_capture_2
   alsa_pcm:Pedalboard-MIDI/midi_capture_1
\t8 bit raw midi
system:midi_playback_2
   alsa_pcm:Pedalboard-MIDI/midi_playback_1
\t8 bit raw midi

pedalboard-bridge:midi_in
\t8 bit raw midi
";

fn bytes(listing: &str) -> Option<Vec<u8>> {
    Some(listing.as_bytes().to_vec())
}

#[test]
fn ports_are_found_by_alias() {
    let ports = find_ports_by_alias(&bytes(LISTING), "pedalboard-midi");
    assert_eq!(ports.capture, "system:midi_capture_2");
    assert_eq!(ports.playback, "system:midi_playback_2");
}

#[test]
fn no_port_matches() {
    let ports = find_ports_by_alias(&bytes(LISTING), "opendeck");
    assert_eq!(ports.capture, "");
    assert_eq!(ports.playback, "");
    let ports = find_ports_by_alias(&None, "pedalboard-midi");
    assert_eq!(ports.capture, "");
    assert_eq!(ports.playback, "");
}

#[test]
fn audio_ports_do_not_count() {
    let listing = "a:capture\n alias\n\t32 bit float mono audio\nb:capture\n\talias\n\t8 bit raw midi\n";
    let ports = find_ports_by_alias(&bytes(listing), "alias");
    assert_eq!(ports.capture, "");
}

#[test]
fn last_matching_port_counts() {
    let listing = "a:capture\n X\n\t8 bit raw midi\nb:capture_playback\n x\n\t8 bit raw midi\nc:other\n x\n\t8 bit raw midi\n";
    let ports = find_ports_by_alias(&bytes(listing), "x");
    assert_eq!(ports.capture, "b:capture_playback");
    assert_eq!(ports.playback, "");
}

#[test]
fn listing_that_is_no_text() {
    let listing = b"a:capture\n \xFFx\n\t8 bit raw midi\n".to_vec();
    assert_eq!(find_ports_by_alias(&Some(listing), "\u{FFFD}x").capture, "a:capture");
}

#[test]
fn existing_ports() {
    let listing = bytes("system:a\n  system:b \n");
    assert!(port_exists(&listing, "system:a"));
    assert!(port_exists(&listing, "system:b"));
    assert!(!port_exists(&listing, "system"));
    assert!(!port_exists(&None, "system:a"));
}

fn sleeps(action: PollAction) -> u64 {
    match action {
        PollAction::Sleep { millis } => millis,
        other => panic!("{other:?}"),
    }
}

fn connects(action: PollAction) -> (String, String) {
    match action {
        PollAction::Connect { from, to } => (from, to),
        other => panic!("{other:?}"),
    }
}

fn pair(from: &str, to: &str) -> (String, String) {
    (from.to_string(), to.to_string())
}

#[test]
fn pattern_is_taken_in_lower_case() {
    let (mut auto, first) = AutoConnect::new("pedalboard-bridge", "Pedalboard-MIDI");
    assert_eq!(sleeps(first), 1000);
    assert!(matches!(auto.auto_connect(PollEvent::Slept), PollAction::ListAliases));
    assert_eq!(
        connects(auto.auto_connect(PollEvent::Listed(bytes(LISTING)))),
        pair("system:midi_capture_2", "pedalboard-bridge:midi_in")
    );
}

#[test]
fn device_is_connected_and_reconnected() {
    let (mut auto, _) = AutoConnect::new("bridge", "pedalboard");

    // Both connections are made, and both ports are there.
    auto.auto_connect(PollEvent::Slept);
    auto.auto_connect(PollEvent::Listed(bytes(LISTING)));
    assert_eq!(
        connects(auto.auto_connect(PollEvent::Connected(true))),
        pair("bridge:midi_out", "system:midi_playback_2")
    );
    assert!(matches!(auto.auto_connect(PollEvent::Connected(true)), PollAction::List));
    assert!(matches!(auto.auto_connect(PollEvent::Listed(bytes(LISTING))), PollAction::List));
    assert_eq!(sleeps(auto.auto_connect(PollEvent::Listed(bytes(LISTING)))), 1000);
    assert_eq!(auto.connected_in(), "system:midi_capture_2");
    assert_eq!(auto.connected_out(), "system:midi_playback_2");

    // Nothing is connected twice; the device goes away.
    auto.auto_connect(PollEvent::Slept);
    assert!(matches!(auto.auto_connect(PollEvent::Listed(bytes(LISTING))), PollAction::List));
    assert!(matches!(auto.auto_connect(PollEvent::Listed(bytes("system:capture_1\n"))), PollAction::List));
    assert_eq!(sleeps(auto.auto_connect(PollEvent::Listed(None))), 1000);
    assert_eq!(auto.connected_in(), "");
    assert_eq!(auto.connected_out(), "");

    // It comes back.
    auto.auto_connect(PollEvent::Slept);
    assert_eq!(
        connects(auto.auto_connect(PollEvent::Listed(bytes(LISTING)))),
        pair("system:midi_capture_2", "bridge:midi_in")
    );
}

#[test]
fn failed_connection_is_tried_again() {
    let (mut auto, _) = AutoConnect::new("bridge", "pedalboard");
    for _ in 0..2 {
        auto.auto_connect(PollEvent::Slept);
        connects(auto.auto_connect(PollEvent::Listed(bytes(LISTING))));
        connects(auto.auto_connect(PollEvent::Connected(false)));
        assert_eq!(sleeps(auto.auto_connect(PollEvent::Connected(false))), 1000);
        assert_eq!(auto.connected_in(), "");
        assert_eq!(auto.connected_out(), "");
    }
}

#[test]
fn nothing_to_do_without_a_device() {
    let (mut auto, _) = AutoConnect::new("bridge", "PEDÄL");
    auto.auto_connect(PollEvent::Slept);
    assert_eq!(sleeps(auto.auto_connect(PollEvent::Listed(None))), 1000);
    auto.auto_connect(PollEvent::Slept);
    let listing = "a:capture\n my pedäl\n\t8 bit raw midi\n";
    assert_eq!(connects(auto.auto_connect(PollEvent::Listed(bytes(listing)))), pair("a:capture", "bridge:midi_in"));
}
