# ruforo

The text-processing core of a forum, written in Verus: BBCode tokenizing,
grouping, parsing and HTML construction (two generations, `bbcode` and
`bbcode2`), HTML sanitation and smilie replacement, the naming of uploaded
files, and the pieces of the XenForo compatibility layer that compute rather
than talk to a database or a cache.

- `src/` is the verified library; every public function states its result in
  its `ensures`, over spec functions of the same module.
- `tests/` runs the library on concrete inputs.
- `app/` is a small command-line front end: BBCode from standard input to HTML,
  and a few helpers that read the environment.

Calls into outside crates (`url`, `regex`, `serde_php`) and a few std calls
stand behind `#[verifier::external_body]` wrappers whose doc comments say what
their contracts claim.
