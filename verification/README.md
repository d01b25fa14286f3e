# litewire

Protocol servers for SQLite: clients of MySQL, PostgreSQL, SQL Server (TDS) and
libsql (Hrana over HTTP) talk to a SQLite database as if it were their own.

The library in `src/` makes the decisions and is verified with Verus. It does
no I/O and no floating-point arithmetic: where something has to be read, sent,
waited for or run on a database, it says what is to be done, takes what came of
it and goes on from there.

| Module | What it decides |
|--------|-----------------|
| `text`, `utf16`, `wire`, `buffer` | text, UTF-16, integers in bytes, byte buffers |
| `statement` | the kinds of statements a translator tells apart |
| `backend` | values and errors; connection cap, tenant screen, write admission, reuse of SQLite sessions, the Hrana client |
| `session` | the dialect-independent session: transaction flag, `FOUND_ROWS`, MySQL error codes |
| `mysql` | the command filter, prepared statements, `mysql_native_password` |
| `postgres` | row encoding, parameters, simple and extended queries |
| `tds` | packets, tokens, logins, batches and RPC requests |
| `hrana` | the messages and the pipeline |

`app/` has the sockets, the threads and the timers. SQL translation is not part
of the project: whoever embeds a server implements `Translator`.

What the library believes of other crates, without proof, stands in the doc
comments of the functions marked `#[verifier::external_body]`.
