# docvis_mail

The logic of a desktop mail client, verified with Verus, and the program around it.

- `src/` is the library. It does no input or output: it reads messages, decides what to ask of a mail
  server, writes the statements for the database, judges attachments, composes what is sent and reads
  address books. Every function states what it returns; the public proof functions named `law_*` state
  what holds of several functions together.
- `tests/` runs the library on concrete values.
- `app/` is the program: the window and its commands (Tauri), the database (SQLite), the sessions with
  mail servers, files and other programs. It performs what the library asks for and hands back what
  came of it.

## How the library is laid out

| Subject | Modules |
| --- | --- |
| Texts, names, addresses | `text`, `order`, `encoding`, `utf7`, `filenames`, `addresses` |
| The database | `schema`, `statements`, `accounts`, `emails` |
| Receiving | `message`, `store`, `imap`, `sync`, `purge`, `folders`, `moving` |
| Attachments | `archive`, `attachments` |
| Sending | `send` |
| The address book | `contacts`, `address_book` |
| The tables of the database, for laws on several statements | `tables` |
| The program | `backup`, `notify`, `startup` |

A statement for the database is a value: its text and its parameters. Work that alternates with a
server or the database is a value too (`Fetching`, `Syncing`, `FullSync`, `Moving`, `Purging`,
`StoreJob`): `action` says what to do next, and the methods that begin with `on_` take what came of it.

## What is taken on trust

What the library has from other crates and from `std` stands behind small functions marked
`external_body`, or behind an `assume_specification`. Each says above it which function it stands for
and what is claimed of it: `mailparse` (messages and dates), `lettre` (addresses and content types),
`zip` (the entries of an archive), `base64`, `chrono` (reading times), and a few functions of
`std` on strings, characters and lists.
