# Beacon

A Kubernetes client: browse any cluster, follow logs, forward ports, change
what you are allowed to change. The logic is a library written in Rust and
verified with [Verus](https://github.com/verus-lang/verus): every function
states in `requires` and `ensures` what it does, and the verifier checks that
its body does it.

## Layout

```
src/base/     text, decimal numbers, JSON, timestamps, metadata, sorting, ordered maps
src/columns/  the columns of a list, and what kubectl prints in each of them
src/k8s/      kubeconfig contexts, discovery, watches and the object store, health,
              permissions, write operations, logs, exec, port forwards, metrics, Helm
src/ui/       what the window decides: tabs, the sidebar's catalog, the table, the
              detail panel, the command palette, prompts, the terminal pane
tests/        the library from outside, with the real outside crates
app/          the program around it: network, files, the clock, the console
```

## What is proved

A value of the library has a mathematical counterpart (`view`, `@`), and
contracts are stated over those: a store is a map from references to objects, a
table is the one list out of that map which its search and its sort determine,
a pod's `STATUS` is a function of what its JSON says. Promises that relate several
calls stand beside the functions as public `proof` functions: that a relist
becomes one reset, that a view which joins a watch late holds what the watch
holds, that a session looks broken exactly while one of its watches fails, that
no log line is dropped uncounted, that a closed tab leaves its connection.

## What is trusted

What outside crates do is stated, not proved, in small functions marked
`external_body` and in `assume_specification` items, each with a comment that
says what it claims: JSON (`serde_json`), timestamps (`jiff`), base64, gzip
(`flate2`), YAML (`serde-saphyr`), fuzzy matching (`nucleo-matcher`), the grid
behind a shell (`alacritty_terminal`), the names of core kinds (`kube`), and a
few functions of the standard library. Where a result takes pages to
state, it has a name, and everything built on it is exact over that name.

Floating point is not verified: quantities of metrics-server are taken apart in
the library, and multiplied and summed in `app/quantity.rs`.
