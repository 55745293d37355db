# buzz_firstmate

FirstMate agents run from a home directory on the local machine, and some of them in a shared Herdr
server. This crate decides how such an agent is validated, launched, tracked and stopped. It is
written in Verus: every function states in its contract what it answers, and the contracts are
proved.

- `src/` is the library. It does no input or output. An operation that needs some is a function of
  what is known so far; it answers with the next thing to do, or with its verdict.
- `app/` is the desktop side. It reads the disk, runs commands and waits, and hands what it saw to
  the library.
- `tests/` run the library on concrete values.

| Module | What it decides |
| --- | --- |
| `working_directory`, `bridge`, `lifecycle` | the home of an agent, what is installed there, and its part in a stop |
| `multiplexer`, `identity`, `contract` | who owns an endpoint, and how it is handed over |
| `agents`, `broker`, `fleet` | which endpoint an owner gets, and when the shared server is stopped |
| `cli`, `discovery`, `json` | what is asked of Herdr, and what its answers prove |
| `text`, `encoding`, `path`, `digest`, `command`, `outcome` | what the others are written with |

The laws that hold across calls stand in `fleet_laws` and `cli_laws`, and beside the functions that
they are about in the other modules. Functions marked `external_body` call other crates or the
standard library; their contracts are taken on trust, and the comment above each says what it claims.
