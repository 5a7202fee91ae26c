# menial_2

A small static-file web server (menial/2) whose request handling and
configuration logic is a Verus-verified library.

- `src/` — the verified library:
  - `request` reads the head of an HTTP request (document, `Host`,
    `If-Modified-Since`, `If-None-Match`, `Authorization`), cutting header
    values at UTF-8 byte offsets;
  - `server` answers one request as a state machine: each step takes what
    the outside world reported and names the next file operation or the
    response;
  - `auth` reads basic-auth credentials and checks them against a password
    file of `user:base64(password)` lines;
  - `config` builds the configuration from command-line options or from a
    YAML document; `table` is the key-unique table it is kept in;
  - `utils` and `ports` build status lines, header lines and content types,
    detect path-escape attempts, and list the ports to listen on;
  - `clock`, `digest`, `codec` and `yaml` reach `chrono`, `sha2`, `base64`,
    `std`'s UTF-8 decoding and `yaml_rust` through small trusted wrappers;
    `text` holds the character-level utilities the rest is built on.
- `app/` — the program: command line (`clap`), files, sockets, TLS
  (`openssl`), the thread pool and logging.
- `tests/` — tests of the library on concrete values.
