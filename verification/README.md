# auto_recovery

Keeps sessions of the Codex command line tool going.

- A session whose turn ended because the servers were overloaded is told to continue, after a
  delay that grows with each attempt in a row. After the last attempt its account can be switched.
- A session whose turn ended at the usage limit is moved on: a reset credit of the account in use
  is redeemed, or another account is switched to and the session started anew with it. Sessions
  that hit the limit of the old account a moment later go on with the new one.

`src/` is the library, verified with Verus: it reads what was found, scores and chooses accounts,
and says step by step what is done next. `app/` does it: it reads files and listings of processes,
runs programs, and asks the surrounding application for accounts and credentials. Which places are
looked at on which system, how long a program is waited for, and what is written to the console
stand there too. `tests/` runs the library on examples.

Scores are counted in whole units, 86 400 times 2^60 of them to the point, so that no term of a
score is rounded. A percentage is fixed point with 60 binary places.

What is taken on trust are the few calls into `chrono`, `serde_json` and the standard library that
stand behind functions marked `external_body`, and one `assume_specification`; each says above it
what it claims.
