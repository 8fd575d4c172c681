# wechat-ilink

A client of the WeChat iLink protocol. Applications own the credentials, the context tokens and the
cursors; the client logs in with a QR code, polls for messages, paces itself, and sends text and
media.

- `src/` is the library. Every function has a contract, and Verus proves all of them but the few
  that are named below: requests and messages (`client`, `protocol`, `messages`, `json`), replies
  (`protocol`, `responses`, `error`), the state of a client (`bot`, `rate_limit`, `contexts`, `time`),
  and the machines that decide what happens next (`login`, `poll`, `retry`, `delivery`, `content`,
  `media`, `upload`). `markdown_filter` takes out the Markdown that WeChat does not show;
  `markdown_laws`, `markdown_streaming` and `markdown_steady` hold what is true of it as a whole, and
  `bot_agent_laws` what is true of the name that `bot_agent` makes up. Taken on trust are the
  functions of `outside`, which call other crates, and, in `text`, what `String::push` of the
  standard library does.
- `tests/` runs the library.
- `app/` is the asynchronous client: HTTP, timers, locks and streams. An application brings a `Codec`,
  which reads messages and encrypts files.

Public proof functions whose names start with `law_` state what holds across several functions.
