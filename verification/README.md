# sift

The verified core of **sift**, a desktop explorer for Azure Service Bus
namespaces. Everything under `src/` is proved by Verus against its
`requires`/`ensures` contracts; `app/` is the thin program around it (file
and terminal I/O, serde copies of the library's types, the SAS token cache).

## Layout

| Module | What it holds |
| --- | --- |
| `text` | character-sequence helpers: decimal rendering, Unicode trimming, ASCII lowercase |
| `duration` | `Duration` and the ISO-8601 / .NET `TimeSpan` forms the management API uses |
| `model` | queue, topic, subscription and rule descriptions, with the service defaults |
| `entity_xml` | the ATOM entry bodies written for create and update requests |
| `atom` | reading ATOM feeds and entries (through `roxmltree`) into the model |
| `connection` | connection-string parsing and the management base URL |
| `sas` | shared-access-signature tokens (`hmac`/`sha2` behind named results) |
| `secrets` | secret strings, secret identifiers, the OS credential store (`keyring`) |
| `config` | profiles and application settings, with insert/replace/remove laws |
| `legacy_import` | importing profiles from a legacy Service Bus Explorer configuration (read with `quick-xml`) |
| `body`, `message` | body detection (gzip, UTF-8, JSON, XML, binary), messages, timestamps |
| `message_file` | portable message templates and the names of saved files |
| `mgmt` | management errors, request URLs, paging and response handling |
| `backend` | the decisions made while connecting a profile |
| `bridge`, `transfer` | entity paths and descriptions; namespace export and import steps |
| `view_state`, `dialogs`, `log_buffer` | UI state: connection, entity tree, message lists, forms, log |
| `actions` | what each widget action changes in the UI state and which backend request it makes |
| `timestamp` | instants as plain calendar fields, read from `time::OffsetDateTime` |

Public proof functions named `law_*` state properties that span several
operations (for example, that a profile read back after an upsert is the one
written, or that the log keeps its newest entries in order).

## Running

`tests/` holds ordinary Rust tests against the compiled library. The
application entry point in `app/main.rs` imports profiles from a legacy
configuration file (`--import-legacy <path>`) and lists the saved profiles.
