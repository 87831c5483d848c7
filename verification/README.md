# caliban-operator

A Kubernetes operator for caliban agent workloads, whose rules are verified with Verus. It reconciles
two custom resources:

- a `Workspace` holds shared configuration: git sources, named model providers, environment, isolation,
  egress and agent policy. The operator validates it and reports its status.
- a `CalibanTask` names a workspace and a provider. The operator resolves and pins that configuration,
  applies a ServiceAccount, a NetworkPolicy and an agent-sandbox Sandbox for the task, and derives the
  task's status from what the cluster reports.

## Layout

`src/` is the library. It decides; it does no I/O. Every type has a view (`XView`, through
`deep_view`), and every function says in its `ensures` what it returns, as a spec function of the
views of its arguments. The `law_` proof functions state what holds across functions.

| module | what it holds |
| --- | --- |
| `config` | settings, their validation, names, labels, owner references |
| `crd`, `workspace`, `sandbox`, `objects` | the custom resources and the Kubernetes objects as plain data |
| `workspace`, `workspace_controller` | validating and resolving a workspace, and its status |
| `resources`, `env`, `shell`, `storage` | the child objects of a task |
| `controller`, `reconcile` | a task's status and admission; its reconcile as a state machine |
| `events`, `error` | what is published and reported |
| `json`, `wire` | statuses as `serde_json` values |
| `ip`, `path`, `text`, `order`, `string_map` | address blocks, paths, strings, ordered maps |

`reconcile` is a machine: `start` gives the first step, each step says what to ask of the cluster, and
the answer leads to the next one until the reconcile finishes.

`app/` is the operator itself: the Kubernetes client, the custom resource definitions with their
schemas, conversions to and from the library's types, and the loops that carry out what the library
decides. `app/` is not verified.

## What is trusted

The calls of `serde_json` in `src/json.rs`, and `String::push` of the standard library in
`src/text.rs`. Each says in its doc comment what it is taken to do.
