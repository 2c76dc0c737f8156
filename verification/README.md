# bgp_link_manager

A terminal manager for BGP sessions on a fleet of routers: it keeps an
encrypted store of routers, projects, desired neighbors and peer templates,
parses `show ip bgp summary` output, edits prefix-lists, community-lists and
route-maps, and drives a tabbed terminal screen.

The library in `src/` is written in Verus and verified:

- `text`, `net`: character-level text handling, and IP addresses with the
  grammar `str::parse` reads and the text `Display` writes (display, then
  parse, gives the address back).
- `bgp`: session and route models, the summary parser, policy-list entries
  and their validation, neighbor drafts, policy naming.
- `router`, `export`, `store`, `crypto`: router records and projects, the
  export document, the rows the SQLite store writes and reads, and password
  sealing (Argon2 key derivation, AES-256-GCM, base64). A record written to
  the store reads back as itself.
- `app`: the decisions of the terminal front end — key routing, filters,
  the router form, the neighbor wizard, the list and route-map editors,
  projects, reachability probes, logs and notices.

`app/` is the program around the library: the terminal, the SQLite queries,
the JSON export document and logging.

Run the verifier on the library with the Verus toolchain
(`verus --crate-type lib src/lib.rs`, with the outside crates on the path).
