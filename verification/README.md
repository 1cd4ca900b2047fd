# extenddb_storage

The storage layer of a DynamoDB-compatible server: the rules by which tables,
items, indexes, streams, backups, transactions and the management catalog are
kept, written as a Verus library whose functions carry `requires`/`ensures`
contracts proved by Verus.

## Layout

- `src/` — the verified library.
  - `types`, `error` — items, attribute values, key schemas and the error kinds.
  - `key`, `arn`, `text` — key texts, the netstring composite key, ARNs and
    decimal text.
  - `query`, `paging` — sort-key conditions and their SQL, the order of a
    partition by sort key, query and scan pages and where they resume.
  - `catalog`, `ddl`, `index`, `index_rows` — table status and billing rules,
    data-table DDL, index projection and index-row maintenance.
  - `streams`, `transact`, `backup` — stream records, shards and sequence
    numbers; transaction outcomes and idempotency; backup and restore rules.
  - `config`, `bootstrapper`, `pg_bootstrap`, `operations`, `management`,
    `iam`, `secrets`, `db_util` — configuration, bootstrapping, connection
    strings, IAM rules, secret encryption and database error classes.
  - `vector_scoring` — vector decoding and the top-k ranking.
- `tests/` — tests of the library on concrete values.
- `app/` — what stays outside the proofs: async store interfaces, the
  installed backend, reading settings from disk and the environment, the
  clock, and floating-point vector scoring.

Calls into outside crates (`base64`, `bigdecimal`, `crc32fast`, `rand`,
`aes-gcm`, `bcrypt`) go through small wrappers whose contracts state what
those crates document; the laws of the library (round trips, orderings,
where a page resumes) are public proof functions next to the code they
describe.
