# persistence

The decision logic of the LaTeX Core persistence layer, written in Verus and
verified: account and file-policy vocabularies, the permission resolver, private
working trees and change-set publication, the compile-job queue rules, template and
restoration planning, Front Matter rendering, institutional imports (CSV and XLSX
validation, cross-row and database checks, review, apply statements), integration
clients, and the credential mail outbox.

Layout:

- `src/` — the verified library. Calls into outside crates (argon2, aes-gcm,
  base64, csv, sha2, uuid, and the OS random source) stand behind small trusted
  wrappers whose contracts name what the crate computes.
- `app/` — a partial PostgreSQL side (sqlx): the connection pool and migrations,
  the mail outbox repository, loading a member's private working tree, applying
  import batches, writing back recorded Front Matter, and reading XLSX workbooks
  with calamine. Apart from writing worksheet cells as text (floating-point
  formatting, which the library cannot hold), every decision it makes is a call
  into the library. The other repository operations (publishing a change set,
  restoring a version, claiming, cancelling and recovering compile jobs,
  instantiating templates) have their decisions in the library
  (`decide_publication`, `plan_restore`, the `compile_queue` and `templates`
  modules) but no database code here.
- `tests/` — tests of the library on concrete values.
