# edgeflow

The decisions of an MLflow-compatible tracker and ONNX inference platform,
written in Verus and proved against their contracts: configuration from
environment values, the k8s Deployment manifest and resource patches of
inference pods, pod health and grouping, the deployment lifecycle, the
tensor wire formats, retry backoff, and the store's filters and paths.

Layout:

- `src/` — the verified library. `text` holds the string specifications
  (trim, split, find, decimal parsing and printing) that the other modules
  state their contracts over; `config`, `k8s`, `orchestrator`, `inference`,
  `server_api`, `store`, `common` and `transforms` hold the logic of the
  services; `core_model` and `server_model` the domain types.
- `tests/` — tests run against the compiled library.
- `app/` — the services around the library: environment reading, HTTP
  servers and clients, the k8s API calls, and the floating-point layers.
