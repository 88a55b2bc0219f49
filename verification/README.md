# sitwego_api

The decision logic of the SitWeGo ride-hailing API, written in Verus and
proved against its contracts.

## Layout

- `src/` — the verified library.
  - `dispatch/state_machine.rs` — the dispatch run as a state machine: search
    radius growth, candidate acquisition, offers, grace periods, deadlines and
    which driver is released or confirmed. `DispatchCore::step` is proved equal
    to the model `step_spec`, and the `law_*` proofs state what every run keeps.
  - `dispatch/pool.rs`, `dispatch/ranking.rs` — the driver pool's key layout and
    script arguments; search categories, duplicate hits and acceptance ratios.
  - `billing.rs` — daily accrual of subscription charges against a per-subscription
    watermark, the last charged day and the rides of it already counted,
    payments, adjustments and trials, with the laws that splitting accrual into
    two runs charges what one run charges: a per-day plan bills each ride-day
    once, and a per-ride plan counts each ride once and applies each day's caps
    once.
  - `earnings.rs` — report dates, daily and weekly windows, and the weekly chart.
  - `ride_history.rs` — a rider's rides grouped by month, newest first.
  - `docs.rs` — onboarding documents per vehicle class and activation blockers.
  - `referral.rs` — referral codes, validation and once-only rewards.
  - `vehicle.rs`, `preferences.rs`, `profile.rs`, `rides.rs`, `config.rs`,
    `helper.rs`, `text.rs` — categories, travel preferences, profiles, stops,
    Redis settings, timestamps and passwords, and verified text utilities.
- `tests/` — tests of the library on concrete values.
- `app/` — the process around the library: configuration, the dispatch runner
  that performs the outside work the state machine asks for, the accrual job,
  report plumbing, JSON shapes, and the floating-point scoring and fares.

Money is kept in whole cents inside the library; instants are milliseconds
since the Unix epoch unless a type says otherwise.
