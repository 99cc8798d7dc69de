# netvan

The verified core of Netvan, a Windows network monitor that records ICMP
latency, traceroutes, Ookla speed tests, per-process traffic and the DNS
cache into a local SQLite database. Interface enumeration and bandwidth
sampling are not part of this crate; the interfaces last recorded in the
database stand for the machine's.

`src/` is a Verus library. Its functions carry contracts that Verus proves;
the few that call `std`, `serde_json` or `directories` do so through small
wrappers whose contracts are believed, and each says in its doc comment what
it claims of the call:

- `text`, `numfmt` — the parts of `str` the parsers use (lines, trimming,
  words, prefixes), decimal numbers written and read back, and the texts
  `str::parse::<f64>` accepts.
- `settings`, `settings_store` — the settings, their defaults, and how they
  are kept in the key/value settings table. Reading back what saving wrote
  gives the settings again.
- `ping`, `traceroute`, `speedtest` — command lines of the system tools and
  the parsers of their output.
- `traffic_process`, `traffic_full` — connection rows turned into flows,
  the roll-up of flows per process and remote address, the WinDivert probe
  and the DNS cache listing.
- `queries` — the query texts of histories, application usage and pruning.
- `engine` — the collector engine's decisions: loop intervals, ping plans,
  link-state changes, the status report and settings requests.
- `paths`, `clock`, `service` — data locations (the database is
  `%APPDATA%\Netvan\Netvan\netvan.db` on Windows), the wall clock, `sc.exe`
  arguments.

`app/` is the service program around it: SQLite storage, running the system
tools, reading the TCP table, the background loops and request handling.
