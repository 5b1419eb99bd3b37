# heimdall

An SMS to mail gateway for a Quectel modem on a serial line. Received text
messages are read from the modem with AT commands and forwarded as mails,
either all to one address or to the addresses that an SQLite table lists for
the sender.

## Layout

- `src/` is the library, verified with Verus:
  - `modem/command.rs` builds the AT commands (through the `at_commands` crate);
  - `modem/response.rs` and `modem/reports.rs` define and read the grammar of
    the modem's answers;
  - `modem/lines.rs` cuts answers into lines and collects serial input up to a
    delimiter;
  - `modem/mod.rs` holds the decisions taken on the answers;
  - `router/` fills subject templates and picks the receivers of a message;
  - `email/` models mail addresses and drafts and hands them to `lettre`;
  - `config/` holds the serial defaults and the choice of router;
  - `text.rs` holds UTF-8, replacement and number helpers.
- `app/` is the program around it: the serial port, the database, SMTP, the
  environment and the async tasks.
- `tests/` exercises the library on concrete values.
