# inventory

The verified core of a desktop inventory manager. The application keeps parts,
rejection reasons, preferences and inspection records in a local MongoDB database
that it starts on demand; this crate holds the rules that decide what it stores,
what it reads back, and what it answers.

## Layout

- `src/` — the library, verified with Verus.
  - `text` — whitespace, trimming, decimal text.
  - `names` — display names and preference names.
  - `object_id` — the 24-digit hexadecimal text of object ids.
  - `document` — a model of stored documents (ordered fields) and the calls into
    `bson` that read and write them.
  - `catalog` — parts, rejection reasons and preferences: reading them from
    documents, the filters and updates that touch them, and what each outcome of a
    database call means.
  - `entries` — inspection records: validation, their stored form, and reading them
    back with their part and reasons.
  - `query` — the filter of the record list and the query it becomes.
  - `config` — the saved configuration and the database status.
  - `server` — the steps that start the database server, its arguments, and reading
    the process that holds its port.
  - `ordering` — the order of collection names.
- `app/` — the Tauri application around the library: commands, file and process
  work, database calls, and the serde shapes of what crosses to the user interface.
- `tests/` — tests of the library on concrete values.

## Trust

Everything in `src/` is proved except the functions marked
`#[verifier::external_body]`; each says in its doc comment which outside function
it calls and what is assumed of it.
