# lms

The rules of a learning platform, verified with Verus.

- `src/quiz.rs`: grading of quiz submissions, append-only attempt histories
  numbered 1, 2, 3, ... per learner and quiz, and the queries over them
  (attempt by number, latest attempt, best score, whether a pass exists),
  with the laws that hold of histories.
- `src/course.rs`: validation and creation of courses with ids that count
  up from 1.
- `src/analytics.rs`: the dashboard summary over the stored counters.
- `src/account.rs`, `src/storage.rs`, `src/content.rs`: account identities,
  storage keys and the lesson and module records.

The stores in `src/` model the records the platform keeps. `app/` is the
Soroban contract code around the library: it authorizes callers, reads and
writes the contract's storage, reads the ledger time and publishes events,
handing plain values to the library and back.
