# LuciSocks

A SOCKS5 server that can also listen on a tailnet, with its protocol logic
verified by [Verus](https://github.com/verus-lang/verus).

## What it does

The server listens on each address in the configuration (`app/config.rs`): on
addresses of the operating system's, and on ports of the address that a tailnet
assigns for an auth key. An entry with `creds` demands a username and a password.
`creds` is the SHA-256 digest of the two, concatenated. An entry without `creds`
serves everyone.

CONNECT, BIND and UDP ASSOCIATE are supported, with IPv4 and IPv6 addresses and
host names.

## Layout

- `src/` is the verified library. It makes every decision and does no input or
  output.
  - `error`, `addr`, `net`, `text`: errors and reply codes, addresses, networks,
    host names.
  - `wire`: the messages as bytes, written and read.
  - `auth`: authentication methods and passwords.
  - `session`: a client's session, as a machine that answers each event with the
    next action. Its parts are `handshake`, `connect`, `bind` and `associate`.
  - `server`: the loop that accepts clients, as such a machine.
  - `run`: what holds of whole sessions. Among other things, a server with
    credentials serves nobody who has not sent the right password.
- `app/` performs the actions, with tokio and tailscale.
- `tests/` runs the library on concrete values.

Two things are believed without proof: that `sha2` computes a function of the
message, and what the standard library says of its UTF-8 decoders.
