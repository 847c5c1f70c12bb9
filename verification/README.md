# pocket_api_client

A client for the Pocket reading-list API whose request and reply logic is
proved with Verus.

- `src/` is the verified library. It prepares every request (URL path,
  headers, JSON body with the consumer key and access token), builds the
  authorization page URL, and judges every reply (HTTP status, error
  headers, the status field of the body). URL encoding is left to the `url`
  crate through `reqwest::Url`, behind two trusted wrappers in `url_ops.rs`.
  `laws.rs` states the properties that hold of every prepared request.
- `app/` is the asynchronous client around it: it sends the prepared
  requests with `reqwest`, decodes replies with `serde`, and hands the
  results back to the library.
- `tests/` exercises the library on concrete values.
