# dsboard

The logic of a band plugin that shows what the use of the DeepSeek platform costs. The library
under `src/` is verified with Verus; `app/` is the plugin around it, which talks to the host and to
the platform and computes with fractions.

| Module | What it holds |
| --- | --- |
| `dates` | day numbers, the clock, timestamps and local dates |
| `text`, `number`, `order` | decimal texts, searching, number grammars, the order of texts |
| `json` | JSON documents as a tree of plain values |
| `tables`, `usage`, `import` | usage exports: archive, tables, totals, and what they change |
| `state` | settings, usage by day and model, and what was pushed last |
| `snapshot` | the snapshot for the band and its signature |
| `deepseek` | the addresses, headers and replies of the platform |
| `backup` | backups and restoring them |
| `engine` | timers, events, devices, pushes, writing backups |
| `ui` | the card, the settings page, and their events |

Amounts of money have a type parameter: the library carries them and never computes with them.
Public proof functions whose names begin with `law_` state what holds across functions.
