# otel-rust-demo

Three small HTTP services that export traces, metrics and logs through
OpenTelemetry:

| Service           | Port | Serves                                            |
|-------------------|------|---------------------------------------------------|
| `otel-rust-demo`  | 8080 | `/`, `/work`, `/error`, `/health`, `/metrics`     |
| `billing-service` | 8081 | `/charge`, `/error`, `/health`, `/metrics`        |
| `payment-gateway` | 8082 | `/process`, `/health`, `/metrics`                 |

`/work` does a few simulated tasks and has the billing service charge for them;
`/charge` has the payment gateway process the payment. The trace context travels
with each request, so all three services show up in one trace.

- `src/` is the library, verified with Verus: what each request does step by step
  and what it is answered (`flow`, `frontend`, `billing`, `gateway`), the numbers
  drawn from the clock (`clock`), trace context and baggage in header fields
  (`headers`, `baggage`, `propagation`, `calls`), the metrics (`metrics`), and how the
  services are set up (`service`).
- `app/` runs the services around it: the web server and client, the exporters,
  the instruments and the spans.
- `tests/` runs the library against the real outside crates.

The service to run is named by the first argument; without one it is
`otel-rust-demo`. These settings are read from the environment:

| Variable                      | Default                 |
|-------------------------------|-------------------------|
| `OTEL_EXPORTER_OTLP_ENDPOINT` | `http://localhost:4317` |
| `BILLING_SERVICE_URL`         | `http://localhost:8081` |
| `PAYMENT_GATEWAY_URL`         | `http://localhost:8082` |
