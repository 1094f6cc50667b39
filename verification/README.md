# tpt_ate

Operational software for wafer test and physical assembly, written in Verus:
SECS-II items, HSMS framing and session state, GEM transactions, STDF V4
records with reader and writer, the wafer map and bin sort, the STDF record
stream of a wafer run, placement verification against an interposer layout,
and the outcome-report schema with its minimum-cohort rule.

Layout:

- `src/` — the verified library. Codecs are specified over byte sequences and
  come with round-trip lemmas (records, items, messages, event reports, the
  GDR wafer map, placement events); the bin sort, tally, run-record builder
  and placement verification have exact functional specifications.
- `app/` — the edge around it: the in-memory duplex transport, the loops
  that drive the HSMS session state machine over a byte stream, the
  simulated tester (floating-point measurement model), the simulated
  assembly equipment (floating-point placement jitter) and the three
  assembly backends over it, wall-clock times,
  serde/thiserror companions of the library's types, and the JSON outcome
  files on disk.
- `tests/` — tests of the library on concrete values.
