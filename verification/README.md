# vaultpipe

Runs a command in a pseudo-terminal with the variables of an env file,
after resolving `vp://<source>/<path>` secret references; and a client
for KeePassXC's browser protocol, the first secret source.

- `src/` is the verified library:
  - `source`: recognising secret references and the sources they name;
  - `env`: the variables of an env file (a later assignment wins);
  - `pty`: the command and environment the child process starts with;
  - `config`: locating and parsing the KDL configuration file;
  - `keepassxc`: the browser protocol — request payloads and their JSON,
    the message envelope, base64, the sealed boxes, and the client's
    state machine (handshake, association, requests, replies).
- `app/` runs the programs: argument parsing, files, the socket, the
  system keyring, random keys and nonces, and the pseudo-terminal.
- `tests/` exercises the library on concrete values.
