# ftp_server

An in-memory FTP server built with [libunftp](https://github.com/bolcom/libunftp), which
publishes uploaded files to [Kafka](https://kafka.apache.org/) on request. Each FTP session has
its own flat, in-memory file store; users log in with the passwords of `config.toml`; the custom
`SITE SEND [--topic <topic>] [--key <key>] <file>...` command publishes files to a Kafka topic.

## Layout

- `src/` is the library, verified with [Verus](https://github.com/verus-lang/verus):
  - `storage.rs`: the per-session file store (`MemStorage`), its model as a map from names to
    contents, and the laws that relate its requests (what a download gives back of an upload,
    what a delete or rename leaves behind);
  - `auth.rs`: the user table (`TomlAuthenticator`) and the login decision;
  - `kafka.rs`: `SITE SEND` as a state machine: argument checks, the order in which files are
    read and published, and the final answer;
  - `diagnostics.rs`: rendering an error with its chain of sources;
  - `keyed.rs`: the map model shared by the file store and the user table.
- `app/` is the program around it: command line, logging, reading `config.toml`, and the
  libunftp, clap and rdkafka plumbing (storage back-end, authenticator, `SITE` handler).
- `tests/` exercises the library on concrete values.

## Running

The server listens on `0.0.0.0:2121` (`--port` to change it), with passive ports
`50000–65535`, and sends Kafka messages to a broker at `localhost:9092`.
