# screenextend

The decision logic of a peer-to-peer tool that extends a Linux desktop to
another machine on the local network, as a Verus-verified library, with the
GTK, GStreamer, network and device plumbing around it in `app/`.

## Layout

- `src/text.rs`: characters, lines, words, substrings and decimal numbers,
  with the specifications the parsers and formatters are proved against.
- `src/protocol.rs`: the signaling messages and protocol constants.
- `src/config.rs`: the default configuration and the session type.
- `src/types.rs`: peers, session states and roles.
- `src/handshake.rs`: the 4-digit PIN, the host's and client's handshake
  decisions, line framing of the signaling channel, session continuation.
- `src/discovery.rs`: mDNS names and properties, and the peer table.
- `src/display.rs`: the Wayland and X11 virtual display state and the
  parsing of `xrandr --query` reports.
- `src/xrandr.rs`: the plan of `xrandr`/`cvt` commands that enables a
  disconnected output as a virtual display.
- `src/input.rs`: input capture on the client and the kernel input reports
  injected on the host.
- `src/streaming.rs`: encoder selection, the host pipeline description,
  media routing on the client, and the offer/answer and ICE exchange.
- `tests/`: tests of the library on concrete values.
- `app/`: the application: windows, TCP signaling, mDNS, GStreamer
  pipelines, uinput, and the JSON wire form of the messages.
