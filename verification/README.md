# vex_browser

The browser-side logic of the Vex browser, written in Verus: the public
functions carry `requires`/`ensures` contracts that Verus proves. The
exceptions are the abort controller's `new`, `abort` and
`abort_with_reason`, whose effect is on a cell shared with other handles
and so has no contract.

- `src/` — the verified library: Fetch API types and headers, the Encoding
  API, server-sent events, BroadcastChannel, the clipboard, drag and drop,
  the Fullscreen and Screen Orientation APIs, geolocation permissions and
  watchers, find in page, forms, history, bookmarks, downloads, error pages,
  the extension platform (manifests, permissions, content scripts, browser
  actions, runtime messaging, the loader) and the developer tools panels
  (network, sources, performance, the console log and REPL, elements tree).
- `tests/` — tests that run the compiled library.
- `app/` — the command-line front end: profile files (JSON), download
  transfers over HTTP, extension files on disk, and the parts that compute
  in floating point.

Collections: queues (the console log, extension inboxes, the embedder bus)
are `VecDeque`s, whose operations vstd specifies. The gamepad slots, keyed
by integer index, are a `HashMap<u32, bool>` under vstd's hash-map
specification. The other keyed tables and sets are `Vec`s with an invariant
that no key occurs twice:
- headers, permissions, channel names and MIME types are keyed by strings,
  and endpoints, watchers and tree nodes by ID structs, for which vstd's
  `HashMap`/`HashSet` specifications prove nothing;
- the geolocation watchers keep the order they began in, which their
  contracts state;
- the cancelled downloads (`u64` keys) were tried as a `HashSet<u64>`: Verus
  then refuses the manager's derived `Clone`, because vstd gives
  `HashSet::clone` no specification and giving it one names the unstable
  `Allocator` trait.
