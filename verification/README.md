# prawn

Live weather-station feed in metric units, polled around each station's own
reporting cadence, with the logic of it proved in Verus.

```
prawn RJTT            # Tokyo Haneda, reports every 30 min
prawn RJTT KSLC KJFK  # several stations, one task each
prawn --json RJTT     # one JSON object per line, pipe-friendly
prawn --once RJTT     # print the last 24 h and exit
```

## Polling

1. **Prime.** Load the history. The cadence is the most common interval between
   routine reports, rounded to the minute, plus the phase within that interval.
   Special reports do not count.
2. **Learn the publish lag**, from receipt times where the provider sends them,
   else from live detections.
3. **Wait, then poll fast.** For each expected time, sleep until the shortest lag
   less a margin, then poll until a row at or after the expected time appears.
   After the longest lag seen the poll interval drops. A report that does not
   come within a period is reported as missed; a late row is still reported the
   moment a later poll sees it.
4. **Dedupe by observation time.** Every row not seen before is reported; a
   report re-issued for a time already seen is reported as a correction. A row is
   forgotten once it is older than two histories, out of the poll window, and no
   longer sent.

After an error the wait doubles with every further error in a row, up to five
minutes. `AnySource::Auto` serves a station from the NWS API where that knows it,
else from the Aviation Weather Center; the first fetch that succeeds settles
which.

## Layout

`src/` is the library. Every function in it carries a contract that Verus proves,
but for the thin wrappers round calls into other crates, which say in their
doc comments what is taken on trust.

- `time` instants and spans, and the calls into `chrono`
- `text`, `numeral`, `order` strings, numerals and stable sorting
- `model`, `content` the metric observation model, and what tells one row from another
- `schedule` cadence inference, next-slot prediction, lag model
- `seen`, `feed` what a feed remembers and what it reports of each batch
- `watch` the polling, as a machine that is told the time and the replies
- `json`, `record` documents and texts taken apart, and the calls into `serde_json`
- `source` the three providers, the choice between them, and one fetch as a machine
- `render`, `cli` lines of the log, and what the command line comes to
- `laws`, `slots` what holds from batch to batch, within a slot, and from slot to slot

Numbers stay as the provider sent them, next to the conversion and the rounding
that make them metric; the library has no floating point.

`app/` is the program around the library: arguments, requests, the clock, the
arithmetic on floats, and JSON output.

`tests/` runs the library.
