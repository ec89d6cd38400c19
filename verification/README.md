# imessage_html

Renders messages as HTML pages: text with effects on ranges of it, attachments
and stickers, edited and unsent parts, replies, reactions, events in a
conversation, and, in forensic mode, the metadata of each row. It also decides,
step by step, how the files of a device backup are copied out of it.

- `src/` is the library, written in Verus. Contracts say which markup each
  function renders, over spec functions whose names end in `_markup`. Proof
  functions named `law_..` state what holds of all inputs.
  - `text/`, `escape`: slices, words, decimal notation and escaping.
  - `text_effects`, `attachments`, `messages`, `edited`, `announcements`,
    `config`, `error`: the data that is rendered.
  - `database`: calls into the message database crate that only compute.
  - `tapback`, `reply`: reactions and replies.
  - `html/`: the exporter.
  - `backup`: device backups.
- `tests/` runs the library on chosen values.
- `app/` reads databases and backups and writes files.
