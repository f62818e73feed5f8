# kiro-generator

`kg` turns agent manifests written in TOML, with inheritance, templates and
global and project layers, into Kiro agent definitions in JSON.

- `src/` is the library, verified with Verus: layer precedence, inheritance
  resolution and cycle detection, manifest merging, the agent definition made
  from a manifest, the tree, search and bootstrap views, configuration paths
  and systemd unit names. Its contracts are stated over sequences, sets and
  maps of strings.
- `app/` is the command-line program around it: argument parsing, reading
  and writing files, and the TOML and JSON formats.
- `tests/` runs the library on concrete values.
