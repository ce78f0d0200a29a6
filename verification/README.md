# myslackcli

A small Slack client for the terminal: it streams the messages of every channel and
direct message, loads history, records both in an sqlite file, and prints links back
into Slack. It talks to Slack with the session of a logged-in browser.

## Layout

- `src/` is the library. Every function in it has a contract; Verus proves all of them but
  the few that are trusted.
- `app/` is the program around it: arguments, environment, requests, the socket, the
  database file, and printing.
- `tests/` runs the library on concrete values, with the real crates linked.

| module | what it holds |
| --- | --- |
| `text`, `number` | operations on strings, and numbers in decimal |
| `json` | documents, and reading them |
| `names` | the names that ids stand for |
| `emoji`, `emoji_rows`, `markup`, `color` | references, entities, shortcodes and colours in text |
| `message` | author, text and label of a message |
| `thread`, `link` | thread tags, deep links and permalinks |
| `api` | addresses, listings, and waiting out rate limits |
| `calendar`, `clock` | the civil calendar, local times, and the day that a search begins with |
| `history` | pages of search results, their order and their threads |
| `event` | the events of the live stream |
| `render`, `replay` | the lines that are printed, live and from the database |
| `store`, `sql`, `tables` | what is recorded, the statements, and what they do |
| `cli` | the command line |

## What is proved

Each executable function states what it returns, over spec functions on mathematical
sequences and maps; the functions of `clock` state it up to the zone of the machine and,
where there is nothing else to show, its current time. The functions named `law_..` relate
them: a message recorded twice is recorded once, a recorded message is shown again exactly
as it was shown when it arrived (as long as the names have not changed), the first word of
a line reads as the id of its message, a parent carries the tag of its replies, a permalink
leads back to its thread, a rate limit is waited out a bounded number of times, and more.

## What is trusted

The contracts of `serde_json`, `chrono`, `urlencoding` and two functions of the standard
library are stated and not proved; each stands beside the call, in `json`, `clock`, `api`,
`cli` and `text`. That the statements in `sql` do to a database what `tables` says is
tested, not proved.
