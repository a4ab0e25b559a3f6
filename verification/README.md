# hacker_news

A Hacker News reader core, written in Verus: the state machines, text handling
and index-document logic behind a desktop Hacker News client, each with a
contract that Verus proves.

## Layout

- `src/` — the verified library.
  - `types`, `stories`, `search` — articles, comments and the documents of the
    full-text index, with round-trip laws between a value and its document.
  - `feed` — API URLs, id truncation and the server-sent event framing.
  - `age` — ages of items ("3 hours ago") from Unix timestamps.
  - `punycode` — display URLs with Unicode host names.
  - `highlight`, `rich_text`, `styled`, `text` — search-term highlighting,
    text layout runs and styled spans of comment bodies.
  - `navigation`, `comments`, `full_search`, `articles`, `header`, `pager`,
    `reader`, `dashboard`, `controls`, `watch` — the reader's state machines:
    each takes a state and a message and gives the next state and a task,
    stated as a spec function that the executable step is proved to follow.
  - `config` — index settings and the open-file limit to request.
- `tests/` — tests of the library on concrete values.
- `app/` — a command-line program over the library: HTTP calls, the
  tantivy index and the configuration file. It lists, searches, indexes
  and watches stories with the library's URLs, documents, comment walk and
  watch decisions; the reader's view state machines are not driven by it,
  as they belong to a desktop front end.
