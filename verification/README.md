# echo_sfu

Room and peer bookkeeping for a two-server media relay built on mediasoup: a
publishing server, where broadcasters enter rooms and publish, and a
subscribing server, where viewers enter rooms and consume the publisher's data
through a pipe transport.

- `src/` is the verified library: the room registries of both servers
  (`publishing`, `subscribing`) with the invariants they keep, the keyed
  collections they are built from (`keyed`, `id_map`), the room and peer types
  (`room`), peer ids (`ids`), the media settings (`codecs`, `config`: where
  transports listen, given the configured host and announced addresses, and how
  many workers run) and how the two pipe transports find each other (`pipe`).
  The media objects (routers, transports, producers, consumers) are type
  parameters: the registries store and hand them back without looking inside.
- `app/` holds the two HTTP servers. Both read the media server configuration
  (`{"hostIp", "announceIp", "worker", "type"}`) from the file named by
  `MEDIA_SERVER_CONFIG`, else `media_server.json`. Each handler asks the registry what to do,
  performs the mediasoup and HTTP calls (all asynchronous), and hands the
  results back to the registry.
- `tests/` runs the library on plain values standing in for the media objects.
