# superzed_session

The session of a Super Zed host, and the decisions of the application around it, as a library whose
behaviour is stated in contracts and proved with Verus.

A host has one session: an ordered list of workspaces, each with a project and a pane layout. The
session changes only by validated mutations that carry the revision they were made for. Clients
follow the session by reconciling what they show with its snapshot.

## Layout

- `src/session.rs`, `layout.rs`, `ids.rs`, `error.rs`: the session and its mutations;
  `session_laws.rs`: what holds of every mutation and every history.
- `src/persistence.rs`: the rows in which a session is stored, and how older ones are brought up.
- `src/superzed_host.rs`, `roots.rs`, `host_resources.rs`, `context_server_registry.rs`: the host.
- `src/host_session.rs`, `reconcile.rs`, `connection.rs`, `local_transport.rs`: the client.
- `src/open_request.rs`, `open_flow.rs`, `encoding.rs`, `remote_connections.rs`,
  `remote_project.rs`: what is opened, from the command line, from URLs and on other machines.
- `src/recent_*.rs`, `repository_selector.rs`, `command_palette.rs`, `chrome.rs`: pickers and menus.
- `src/path.rs`, `path_prefix.rs`, `path_order.rs`, `glob.rs`, `text*.rs`: Unix and Windows paths, and texts.
- `app/`: storage, files, processes and messages, in ordinary Rust.

Functions that call into other crates are marked `#[verifier::external_body]`; the comment above
each says what is taken for granted of the call.
