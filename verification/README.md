# wry URL scheme core

The platform-independent core of the custom URL scheme handler of a WebKit
web view, verified with Verus.

- `src/wkwebview/urlscheme/task.rs` — the registry of live URL scheme tasks and
  the decisions on what may be sent to a task (response head, body data,
  completion, failure), with the laws of that protocol as proof functions.
- `src/wkwebview/urlscheme/conversion/into_http.rs` — the HTTP request made of
  what the web view's URL request holds, and the reading of a body stream.
- `src/wkwebview/urlscheme/conversion/into_objc.rs` — the response head in the
  form the platform's HTTP response is built from: header dictionary,
  `content-length`, status and version text.
- `src/streaming.rs`, `src/wkwebview/urlscheme/handler.rs` — streaming a body
  chunk by chunk, and answering with a complete response.
- `src/http_syntax.rs` — the HTTP syntax checks, with the `http` crate's parsers
  behind them; `src/text.rs` — decimal formatting; `src/util.rs` — the id counter.

`app/` holds the Objective-C side (the handler class, WebKit and Foundation
calls, the hop to the main thread). It only builds for Apple targets.
