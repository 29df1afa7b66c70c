# rollout

Brings stale daemons of a live fleet current, one at a time, and confirms each one before the
next is touched.

- `rollout plan` (the default) prints what would be done and changes nothing.
- `rollout apply` carries the plan out, strictly one daemon after the other: each is restarted hard
  or swapped warm, as the plan shows it.
- `rollout install` puts a binary in place by a rename and restarts the unit that runs it.
- `rollout prove` and `rollout record-proof` keep the ledger of changeover proofs.
- `rollout cycle` proves, builds, swaps warm and verifies; it only tells what it would do unless
  `ROLLOUT_AUTO_ENABLED` is `1`.

## Layout

`src/` is the library, written in Verus. Every decision stands there: what is restarted and when,
what is refused or deferred, what is told, and how a run ends. Each longer operation is a machine
that takes an event and gives the next action, so that its laws speak of every order of events:

| module | what it decides |
|---|---|
| `fleet`, `scan` | recipes, and which daemons are stale |
| `autogate` | the proof ledger, and whether it allows an unattended swap |
| `health` | the voice set, voice activity, healthcheck polls, the window guard |
| `restart`, `warmswap` | restarting one daemon, hard or warm |
| `units`, `install` | systemd-user units, and installing a binary |
| `prove`, `cycle`, `apply`, `cli` | the commands |
| `text`, `paths`, `calendar`, `json`, `table`, `command`, `output`, `error` | what they stand on |

`app/` is the program: it parses the command line, performs the actions and hands the events
back. `tests/` runs the library on concrete values.

What is believed without proof are the functions marked `external_body`: calls of `regex`,
`serde_json` and `std`, each with a comment that says what is claimed of the call.
