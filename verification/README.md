# llmfit_share

Contribute benchmark results to the llmfit project as a GitHub pull request,
without the `gh` CLI: a verified library and a thin layer of input and output
around it.

- `src/` is the library, verified with Verus. It decides and computes; it does no
  input or output.
  - `text`, `json`, `encoding`, `clock`: strings, JSON documents, base64 and the
    clock, with the few facts about the standard library, `serde_json` and `base64`
    that everything else rests on.
  - `hardware`: memory tiers, operating system names, and the slug of a machine.
  - `submission`: what is published of a benchmark, its hash, its branch and its
    path.
  - `github`: the requests to the GitHub API, and what the replies mean.
  - `auth`: where a token comes from, and the OAuth device flow.
  - `submit`, `share`: the two state machines, one towards GitHub and one towards
    the user.
- `app/` runs the state machines: it sends the requests, reads and writes the token
  file, and talks to the user. Floating-point figures are rounded and rendered there.
- `tests/` runs the library.
