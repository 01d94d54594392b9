# sui_id

The verified core of the sui-id OpenID Connect provider, written in Verus.

`src/` holds the logic, each function with a contract that Verus proves:

- `i18n`, `formatters`: locale negotiation, string tables, and the date,
  time, relative-time and count formatters.
- `consent`: whether a stored consent grant covers a scope request.
- `json_util`: the JSON-column check made before writes.
- `step_up`, `admin`, `pages`: the rules of the admin panel and the
  self-service security pages (redirect targets, form reading, replies,
  and the computed content of every table row and page block).
- `forgot_password`: reset tokens (minting, hashing, lifetime, single use),
  the reset request as a state machine (`reset_flow_step`), and the mails.
- `refresh_tokens`: refresh-token lookup and the hash backfill plan.
- `migrations`: which schema migrations a database still needs.
- `tar`, `backup`: the backup archive format and the restore decisions.
- `cli`: command-line parsing.

Calls into `sha2`, `base64ct`, `rand`, `subtle`, `serde_json`, `chrono` and
`qrcode` stand behind small trusted wrappers whose contracts are stated in
their doc comments.

`app/` is the `sui-id` binary: it reads the configuration, runs `backup` and
`restore` against the file system and SQLite, and prints help and version.
`tests/` exercises the library on concrete values.
