# icsutils

Merges several iCalendar feeds into one calendar, hiding the details of the
private ones, and keeps the merge configurations in a sled database behind a
small password-protected web API.

- `src/lib.rs`: the line filter applied to each source calendar
  (`parse_calendar_content`) and its laws.
- `src/text.rs`: prefix tests, UTF-8 decoding, lower-case hexadecimal.
- `src/db.rs`, `src/db/sled2.rs`: the configuration types and the store; the
  store's laws (a read gives back what was stored, deletion, listing order).
- `src/service.rs`: the decisions of the web service (password checks,
  replies, preparing a new configuration, merging the fetched calendars).
- `app/main.rs`: the actix-web server, HTTP fetching and JSON.
