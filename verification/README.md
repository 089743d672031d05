# stability_image

Stability AI's Stable Image API (v2beta) as a backend of an MCP gateway, with its
logic verified by Verus.

- `src/text.rs`: trimming, ASCII case, splitting and decimals, over characters.
- `src/aspect.rs`: a size (`WxH` or `W:H`) to one of the nine accepted ratios.
- `src/config.rs`: a binding's configuration and its check.
- `src/image_adapter.rs`: the form, the headers and the address of a request, and
  what becomes of an exchange.
- `src/response.rs`: the API's envelope, its error envelope and its statuses.
- `src/image_plugin.rs`: the registered profiles and the steps around a call.
- `src/error.rs`: the errors, each with the model that contracts speak of.
- `src/outside.rs`: what is relied on of `reqwest`, `serde_json`, `base64` and std.
- `app/`: the HTTP exchange, the gateway's traits, logging and metrics.
- `tests/`: the tests.

The laws of the library are public proof functions beside the functions that
they relate.
