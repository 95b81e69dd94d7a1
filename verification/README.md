# screenshare

Peer-to-peer screen sharing. A host captures its screen, encodes the frames and sends
them over QUIC; a viewer receives, decodes and shows them. A small signalling server
introduces the two to each other and takes no part in the video.

The rules of the program are a library verified with Verus. Network, screen, codec and
graphics calls stand in the program around it.

## The library (`src/`)

| module      | what it holds |
|-------------|---------------|
| `capture`   | frames, and how padded rows of a screen image become one |
| `codec`     | settings and course of the H.264 encoder and decoder |
| `wire`      | the byte format of a video packet, and that reading undoes writing |
| `packet`    | video packets to bytes and back |
| `transport` | numbering and framing of packets on the stream, on both sides |
| `identity`  | certificates and their fingerprints |
| `code`      | session codes |
| `signaling` | the sessions of the signalling server, and what it grants |
| `connection` | the course of one connection to it, as a state machine |
| `integrity` | tags that show that a request was not altered |
| `message`   | the messages between peers and the server |
| `client`    | the answers that a peer expects of the server |
| `introduction` | that a host and a viewer find each other through the server |
| `entry`     | arguments, addresses and URLs |
| `host`      | the course of a host, as a state machine |
| `viewer`    | the course of a viewer, as a state machine |
| `renderer`  | surface, texture and pending frame of the window |
| `text`      | building strings |

Each function states in its contract what it returns; the public `lemma_` functions
state what holds across several of them.

## The program (`app/`)

```
screenshare --host        share this screen
screenshare --viewer      watch another screen
screenshare --signaling   run the signalling server on port 3000
```

`SIGNALING_URL` names the server (`wss://localhost:3000` if unset). The server itself
speaks plain WebSocket and belongs behind a proxy that adds TLS; for a trial on one
machine set `SIGNALING_URL=ws://localhost:3000`. Hosts and viewers need `AUTH_KEY`; a
server that has it set serves only those that present the same key. Requests carry an
HMAC-SHA256 tag under that key; one that carries a wrong tag is refused.

Capture works on macOS; the codec needs FFmpeg with libx264.
