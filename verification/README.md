# opensovd_zenoh

Robots on a Zenoh network as components of an OpenSOVD diagnostic server, verified with Verus.

- `src/zenoh.rs`: robots that answer queries; their data points are discovered, listed and read.
- `src/zenoh_pub_sub.rs`: robots that publish; their data points are also written.
- `src/session.rs`: the configuration of the Zenoh session.
- `src/cli.rs`, `src/tls.rs`: the gateway's options, and the TLS configuration made out of them.
- `src/json.rs`, `src/text.rs`: documents and keys, and what is known of them.
- `src/entity.rs`: what a provider hands to the server.
- `src/laws.rs`: what holds of all of this together.
- `app/`: the edges: command line, files and the network.

The library takes no part in input and output: callers send what it asks for and hand back what
came of it.
