# rhythm

An intercepting HTTP(S) proxy ("rust in the middle") with a browser UI,
whose decisions and encodings are verified with Verus.

- `src/` — the verified library:
  - `uplink`: the endpoint of a request URI (with host overrides), the route
    through a chain of upstream proxies, the `CONNECT` request and the
    judging of an HTTP proxy's reply;
  - `proxy`: dispatch of incoming requests, the web UI's routes and REST
    replies, pass-through or interception of tunnels, classification of a
    tunnel's first bytes, rewritten request URIs and gateway error pages;
  - `proto`: messages between proxy and UI and the stored request and
    response heads;
  - `store`: the trees and big-endian keys of the history database, whose
    byte order is the order of the request ids;
  - `ca`: lifecycle of the interception CA and serial numbers of forged
    certificates;
  - `ui`: resizing of table columns and grid panes, the recycled rows of the
    request list, the websocket address;
  - `text`, `textmap`: decimal text and a text-keyed map.
- `app/` — the program around it: hyper server and client, TLS, sled, the
  certificate generation, and the WebAssembly glue of the UI.
- `tests/` — tests of the library.
