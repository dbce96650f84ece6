# feedreader

A terminal feed reader that gathers Telegram channel posts, RSS/Atom/JSON feeds and
Hacker News top stories into one list.

- `src/` is the library, written in Verus and verified: the ordering of posts for
  display (a stable sort, proved sorted, a permutation and stable), the record of seen
  posts and the run that drops posts already seen, the Telegram message filtering and
  album merging, the Hacker News and feed entry conversion, text handling (trimming,
  decimal numbers, HTML to text), the cooldown check, the screen state machine and the
  layout helpers of the interface.
- Two byte scans, themselves verified, decide which input is handed to outside code:
  feed bodies whose play-time values (`itunes:duration`, media `start`, `end` and
  `time`) hold a non-ASCII decimal digit or a number too large for feed-rs's arithmetic
  are not handed to feed-rs (nor are bodies in UTF-16, UTF-32 or ISO-2022-JP, which a byte
  scan cannot read), and HTML that sets a `colspan` or an ordered-list `start`
  too large for html2text's arithmetic is shown as it is. That the outside code does not
  panic on the rest is taken from its source, through the trusted contracts of the
  wrappers that call it; it is not proved.
- `app/` is the program around it: configuration and state files, network access,
  Telegram sign-in, and drawing with ratatui.
- `tests/` runs the library on concrete inputs.
