# snowchains

The logic of a command-line tool for competitive programming services
(AtCoder, Codeforces, yukicoder, HackerRank), written in Verus.  The
functions under `src/` carry contracts that Verus proves, except the small
wrappers marked `#[verifier::external_body]` that call the outside crates
(`serde_yaml`, `url`, `robots_txt`, `cookie`, `bincode`, `heck`, `select`)
and a few functions of `std`: their contracts are trusted, and each says in
its doc comment what it claims of the call.

- `src/lib.rs`: service names, printed and parsed.
- `src/text.rs`: strings as character sequences; line splitting and joining.
- `src/yaml.rs`: escaping of YAML scalars, insertion of a `language` line and
  replacement of top-level scalars in the text of the configuration file.
- `src/template.rs`: path and command templates of the configuration.
- `src/config.rs`: the model of `snowchains.yaml`, the text `init` writes, the
  edit and the report of `switch`, and the templates and commands built from
  the configuration.
- `src/cookies.rs`: the cookies of a session, kept in a `cookie::CookieJar`
  and saved as a `bincode` list of `Set-Cookie` strings.
- `src/session.rs`: URL resolution, `robots.txt` rules, accepted statuses
  and the state of an HTTP session.
- `src/testcases.rs`: the decisions of `retrieve testcases`.

`app/` is the program around the library: command-line parsing, files,
HTTP requests and terminal output.  It is ordinary Rust and is not verified.
`tests/` holds the tests, which run the library with the real outside crates.
