# quick

The bookkeeping behind a desktop launcher of "quick" web windows, written in
Verus with its contracts proved:

- `log`: the in-memory store of recent log lines and the queries over it;
- `datetime`: the server-time offset applied to timestamps;
- `focus`, `focus_events`: which window has the focus, when every window is
  hidden, and which focus-restore request may still act;
- `models`, `manager`: the configured windows, the active and previous one,
  the shared position and the update lock;
- `window_manager`, `quick_window`: the registry of opened windows and what
  opening or switching to one asks of the caller;
- `labels`, `app_window`: window labels derived from a URL's SHA-256 digest;
- `shortcut`: reading shortcuts such as `alt+g` and the registry of shortcuts
  by id;
- `setup`: the cache in front of the stored settings;
- `proxy`, `settings`, `types`, `curd_proxies`, `curd_windows`, `services`,
  `migration`, `screen`, `error`: the rules of the settings pages, proxy URLs,
  migration versions and window placement;
- `laws`: properties that span several operations.

`app/` holds what stays outside the verified library: global state, the
system clock through chrono, the flexi_logger writer, serde and thiserror
copies of the records and errors, application directories, and window
geometry in floating point.
