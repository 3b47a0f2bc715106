# copilot_quota

Reads the quota response that GitHub gives for Copilot, judges how much of each
allowance is used, and lays the result out as a module of a status bar. The
library under `src/` is verified with Verus.

- `types`: quotas, snapshots of them, and the reading of a response.
- `vendor`: placeholders, headline and tooltip of the module.
- `placeholders`, `toolkit`: what the module hands to the status bar, and the
  functions that the status bar provides to it.
- `reset`, `json`: reset times and members of JSON objects.
- `numeral`, `decimal`: numbers in text, read and written.
- `binary64`, `rounding`, `natural`: numbers in the binary64 format of IEEE 754,
  held as bit patterns and computed with exactly.
- `laws`: what holds of quotas and of what is shown as a whole.

Amounts and percentages are binary64 numbers, so the library computes with
their bit patterns in whole-number arithmetic. Each result is stated as the one
that rounding the exact value to the nearest number gives.

`app/` holds what stands around the library: the forms that `serde` reads and
writes, and the clock.
