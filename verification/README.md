# aevum

A real-time data analytics platform in four services — ingestion, stream
processing, storage and a query API — whose logic is a Verus-verified
library.

- `src/common`: the data model (streams, data points, pipelines), a JSON
  model with a mathematical view, text and number formatting, RFC 3339 and
  clock access, and the shared error type.
- `src/ingestion`: configuration, validation of streams and data, building
  the data points and streams to publish, and where they are published.
- `src/processor`: the pipeline operations (filter, transform, windowed
  aggregation, anomaly detection), pipelines and their manager, the
  batching loop of the processor and the topics it reads. Floating-point
  arithmetic is asked of an evaluator the caller supplies; everything else is
  stated exactly for every answer.
- `src/storage`: configuration, the batching of consumed data points (a full
  batch of 100, or a non-empty one after 5 idle seconds, is written; nothing
  is lost or reordered), and the metadata upsert decision.
- `src/api`: configuration, time ranges of queries, the SQL text of the
  time-series queries and schema field extraction.
- `app/`: the executables — HTTP servers, Kafka clients, Postgres access,
  configuration loading and the `f64` evaluator. Run
  `aevum <ingestion|processor|storage|api>`.
