# graft

graft keeps files of a downstream repository in step with an upstream
template repository, and keeps the downstream repository's GitHub settings
(labels, rulesets, branch protection, actions permissions, merge options) as
a manifest declares them.

The library under `src/` is written in Verus: every function carries a
contract, and Verus proves the code against it.

- `manifest`, `merge`, `error`: the manifest schema, its validation, and the
  overlay of a local manifest on an upstream one.
- `strategy`: what each synchronisation strategy does to a file (`replace`,
  `create_only`, `delete`, `patch`), and the marker blocks that protect local
  edits.
- `mode`: the decisions of the sync, ci-check, patch-refresh and validate
  modes.
- `output`: the status lines, summaries, annotations and pull request
  comments.
- `repo`: comparing the live repository settings with the manifest's spec,
  building the API requests that apply the differences, and previewing them.
- `json`, `text`, `text_order`, `copies`, `style`, `external`: supporting
  values and the calls into other crates.

Laws that hold across functions are stated as public proof functions next to
the functions they speak of, among them:

- stripping marker blocks loses nothing (`lemma_strip_merge_roundtrip`), and
  stripping what a merge produced gives the merge's inputs back
  (`lemma_merge_strip_roundtrip`);
- a second `replace` run with the same upstream leaves the file unchanged
  (`lemma_replace_settles`, `lemma_replace_markers_settles`);
- the manifest overlay keeps upstream-only rules, drops ignored paths and lets
  local rules win (`lemma_upstream_only_kept`, `lemma_ignore_drops_path`,
  `lemma_local_wins`).

`app/` holds what Verus does not see: reading manifest files with serde,
spawning `diff`, reading and writing the files of the repository, and the
loops of the run modes around the library's decisions.
