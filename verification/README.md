# pedalboard-bridge

The bridge between a MIDI foot controller, its web tools and
[mod-host](https://github.com/moddevices/mod-host), an LV2 plugin host. It runs on the pedalboard's
computer and speaks WebSocket and HTTP to the tools, JACK MIDI to the controller and TCP to mod-host.

```
CLI/Browser <-WebSocket-> pedalboard-bridge <-JACK MIDI-> controller (RP2040)
                                            <-TCP-> mod-host (LV2 plugins)
```

## Layout

- `src/` is the library. It is written in Verus: what each function does is stated in its contract
  and proved. It does no input or output. Where the bridge alternates between work outside and
  decisions, the library has a state machine: it says what to do next, and is told what happened.
- `tests/` runs the library.
- `app/` is the program: sockets, processes, files, JACK, YAML and floating-point numbers.
  `app/stub.rs` is a program of its own, a stand-in for a controller.
- `extras/build.sh` runs a build with the hash that names it.

| Module | What it is about |
|--------|------------------|
| `audio` | the rig: its configuration, loading it, switching snapshots, expression pedals |
| `tone` | what mod-host was told after a rig was loaded or a snapshot was switched to |
| `modhost` | the mod-host protocol: commands, responses, errors |
| `midi` | SysEx messages from fragments, Program Changes and Control Changes |
| `jack_midi` | finding the controller's ports by alias, and keeping them connected |
| `mode` | the `/mode` endpoint: studio and gig |
| `deploy`, `uploads`, `presets` | the `/deploy` endpoint: a setlist goes to mod-host and to the firmware |
| `property_exchange`, `global_config` | messages to the firmware and what they carry |
| `flash` | the `/flash` endpoint: a firmware goes to the controller's boot drive |
| `websocket` | the `/raw` and `/monitor` endpoints |
| `server`, `version`, `http` | the rest of the service |
| `stub` | the stand-in for a controller |
| `text`, `keyed` | texts, numbers in texts, and small maps |

Public proof functions whose names start with `law_` state what holds of the library as a whole.

## Usage

```
pedalboard-bridge --midi pedalboard-midi --addr 0.0.0.0:8080 --audio /etc/pedalboard/audio.yaml --modhost localhost:5555
```

| Flag | Default | Description |
|------|---------|-------------|
| `--addr` | `:8080` | HTTP/WebSocket listen address |
| `--midi` | none | JACK MIDI port alias pattern for auto-connect |
| `--audio` | none | audio config YAML (enables mod-host) |
| `--modhost` | `localhost:5555` | mod-host TCP address |

## What is trusted

The proofs rest on the contracts of a few wrappers, each of which makes one call out of the library:
`String::from_utf8`, `String::from_utf8_lossy` and `str::to_lowercase` (in `text`),
`midi_controller::property_exchange::build_set_inquiry` and
`midi_controller::config::GLOBAL_CONFIG_RESOURCE` (in `property_exchange`), `postcard::to_allocvec` (in
`global_config` and `presets`), and the name of a `midi_controller::config::Preset` (in `presets`).
