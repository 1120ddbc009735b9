# telemetroid

A Telegram bot that reports on a Linux machine (status summary, package updates, SMART
health) and runs its maintenance (btrfs scrubs, SMART self-tests, fstrim).

- `src/` is the library, verified with Verus: the parsers of the tools' output
  (`btrfs scrub status`, `fstrim -v`, xbps listings, `/proc` files, lsblk and lspci
  output), the texts the bot sends, the maintenance slots that keep runs from
  overlapping, and the decisions taken while a self-test is polled. Every public
  function states its result exactly; laws that relate several functions are public
  proof functions next to them.
- `app/` is the program around it: running commands, reading files, JSON decoding,
  threads, timers, floating point readings and the Telegram plumbing.
- `tests/` exercises the library on concrete inputs, including a comparison of the
  integer model of `{:.2}` byte formatting with the floating point formatting it stands
  for.
