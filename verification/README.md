# shelf_brain

The ShelfBrain API: items on three attention shelves (top, middle, bottom),
categories, and per-shelf notification preferences, served from AWS Lambda
with DynamoDB storage.

- `src/` is the library, written in Verus and verified: request routing,
  validation and cleaning of request fields, building and changing records,
  finding items, the listings and their sort orders (a verified stable sort),
  the shelf overview, the error answers, and the laws that keep a user's
  writes under that user's key. Fresh ids (`uuid`) and the
  current time (`chrono`) come from two small trusted wrappers in
  `src/external.rs`.
- `app/main.rs` is the Lambda program: HTTP in and out (`lambda_http`),
  DynamoDB reads and writes (`aws-sdk-dynamodb`, `serde_dynamo`), JSON
  (`serde_json`), logging (`tracing`). It converts between its serde types
  and the library's types and leaves every decision to the library.
- `tests/` runs the library on concrete values.
