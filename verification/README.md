# usage-deck

The verified core of a Stream Deck (OpenDeck) plugin with three actions: a
Usage Gauge for the session, weekly and monthly usage windows, a Peak Clock,
and a Metric Tile that totals tokens or estimated cost from transcript logs.

- `src/` is the library, written in Verus: peak-hours schedules and
  countdowns, reset-time parsing and countdown text, the request throttle
  with exponential backoff, transcript-line selection, range totals, model
  families, and the SVG/data-URI icons. Each public function states its
  result in `requires`/`ensures`; the laws that relate several calls are
  public proof functions (`lemma_*`).
- `tests/` runs the library on concrete values.
- `app/` is the plugin process: reading files and the usage endpoint,
  the system clocks, settings (de)serialization, the OpenAction event loop,
  and the parts that compute in floating point (percentages, dollar costs,
  gauge and ring geometry).

The outside calls the library makes (RFC 3339 parsing, base64 encoding,
Unicode lowercasing) go through small trusted wrappers whose contracts are
stated next to them.
