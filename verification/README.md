# alvr_core

The parts of a VR streaming application that decide things, written in Rust and verified with
Verus: what is sent and how it is put together again, what becomes of stored settings, when the
encoder gets new parameters, and how client, server and dashboard find and lose each other.

## Layout

`src/` is the verified library. Nothing in it touches a socket, a file or a clock: the time, what
was received and what an operation came to are arguments, and what is to be done is a result.

| module | what it does |
| --- | --- |
| `stream_socket`, `stream_laws` | cutting packets into shards and putting them together again |
| `socket_buffers` | setting the sizes of the buffers of a socket |
| `buffer` | byte buffers of the `bytes` crate |
| `packets` | what server and client say to each other |
| `json`, `json_text` | JSON values and their text |
| `schema`, `extrapolation`, `settings`, `settings_laws` | taking over stored settings, and turning them into settings in use |
| `session` | the session and what is merged into it |
| `average`, `time` | averages over the latest samples, lengths of time |
| `statistics`, `statistics_laws` | latencies of the frames, and what is counted along the way |
| `bitrate`, `bitrate_laws` | what the encoder parameters follow from |
| `welcome` | the packets by which clients make themselves known |
| `connection`, `streaming`, `negotiation` | a client that connects to a streamer and receives a stream |
| `dashboard`, `dashboard_laws`, `worker` | the requests of the dashboard and its connection to the server |

Public proof functions whose names begin with `law_` state what holds of the library as a whole.
What the library takes on trust are functions of other crates and of the standard library; each of
them has a comment that says what is claimed of it.

`app/` holds the sockets, threads, clocks and serialization, and what is computed in floating
point. `tests/` runs the library.
