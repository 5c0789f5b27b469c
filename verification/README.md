# LucidMQ

LucidMQ is a small event-streaming system: producers append messages to
topics, and consumers read them back through consumer groups, each of which
keeps its own offset. Every topic is stored in a commit log: an append-only
sequence of messages addressed by offset, kept in segments of bounded size
(a log file and an index file each), whose oldest segments a cleaner removes
while the segments together hold more than the topic retains (the newest is
always kept).

## Layout

- `src/` is the library, verified with Verus. Each function states its
  behaviour in `requires`/`ensures`; the properties that span functions are
  proof functions named `lemma_*`.
  - `index`, `virtual_segment`, `segment`, `cleaner`, `commitlog`,
    `segment_files`, `utils`: the commit log and its segments, held as the
    bytes of their files.
  - `message`, `codec`: messages and their stored encoding.
  - `topic`, `producer`, `consumer`, `nolan`, `lucid`: topics, consumer
    groups, producers and consumers, and the merge of saved state.
  - `broker`, `types`, `cap_n_proto_helper`, `request_builder`,
    `response_builder`, `response_text`, `server`, `topic_capnp`: the broker's
    requests and responses, the wire framing, and the text a client prints.
- `app/` is the program around it: reading and writing files, saving the
  broker's state, the command line and the waiting loop of a consumer.
- `tests/` runs the library on concrete values.

## Wire protocol

Clients and the broker exchange Cap'n Proto messages wrapped in a message
envelope. The envelope's schema is not among this project's sources, so the
library holds requests and responses as plain values (`cap_n_proto_helper`,
`topic_capnp`) and verifies what is done with them; the framing of a message
(its length as two little-endian bytes, then its bytes) is verified in
`cap_n_proto_helper`.
