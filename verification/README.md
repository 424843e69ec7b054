# ghtkn

GitHub token management through the OAuth device flow, with tokens cached in
the system keyring and GitHub Apps chosen from a YAML configuration file.

## Layout

- `src/` is the verified library (Verus). It holds the logic of the token
  flow with its contracts and laws:
  - `config`: validation of the configuration, the choice of an app, and the
    default location of the configuration file;
  - `keyring`: the JSON record in which a token is stored, and reading and
    writing it through a keyring backend;
  - `json_keys`: the member names of a JSON object text, as written, so that
    a record repeating a field is rejected;
  - `deviceflow`: the polling schedule of the device flow, the deadline of a
    device code, and the prompt shown to the user;
  - `api`: the decisions between the steps of the token flow and the cache of
    a token source;
  - `time`, `text`, `error`, `browser`, `github`: the small pieces these share.
- `app/` is the asynchronous client around the library: HTTP requests,
  the system keyring, the terminal, reading the configuration file and
  logging.
- `tests/` exercises the library on concrete values.
