# manytrace

Traces programs and the system they run on. Instrumented programs hand their spans, log events
and counters to a collector through a ring buffer in shared memory; kernel programs report
processor time, callstacks, hardware counters, scheduling and network traffic. The traces are
written in the Chrome trace event format or in the Perfetto format.

## Layout

`src/` is the library. It is written in Verus and verified as a whole. Functions state in their
contracts what they return and change; a few that make empty values or random numbers have nothing
to state.

- `mpscbuf`: the ring buffer: headers, reservations, reading in order, the doubled mapping.
- `protocol`: events, labels and control messages, and the writers that measure and store them.
- `agent`: the agent's side of a connection (who may start, who is dropped) and its client.
- `instrument`: from `tracing` spans and events to events of the protocol.
- `perfetto`, `converter`: packets of the Perfetto format, and the tracks that events go to.
- `chrome`: the Chrome trace event format.
- `bpf`: configuration and collectors of the kernel programs' events.
- `config`: the program's configuration.
- `text`: decimal numbers, trimming and comparing of texts.

What holds of several functions together is stated as public proof functions, mostly in the
`laws` modules.

`app/` is the program around the library: sockets, shared memory, files, JSON, TOML and Protocol
Buffers, and the kernel programs, which it loads with libbpf from the directory in
`MANYTRACE_BPF_DIR`.

`tests/` holds the tests of the library.

## What is not proved

A few calls into other crates and the standard library are trusted, each with a contract beside
it: `String::push`, `str::from_utf8` and `str::to_lowercase` in `text`, the parsing of log filters
by `tracing-subscriber` in `agent::filter`, and random numbers from `rand` in `bpf::nettrack`.
Floating-point numbers are carried as their bit patterns, or as the integers that they are
computed from.

## Usage

```bash
manytrace user -o trace.json -s /tmp/manytrace.sock -d 10
sudo manytrace bpf config.toml -o trace.perfetto -d 10
```
