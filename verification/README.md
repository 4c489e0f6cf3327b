# drone_time

Time keeping for Cortex-M firmware built on Drone: spans of hardware timer
ticks, calendar date and time, a wall clock that follows an uptime counter,
and alarms that multiplex one hardware timer among many sleeps.

The crate is written in Verus. `src/` is the library, with its contracts and
proofs:

- `timespan.rs`: `TimeSpan`, signed durations in ticks of a `Tick` clock, and
  their conversions from and to days, hours, minutes, seconds, milliseconds
  and microseconds; Rust's rounding toward zero is `arith::tdiv`.
- `datetime.rs`: `DateTime`, seconds since 1970, split into and made from
  Gregorian calendar parts, with both round trips proved.
- `watch.rs`: `Watch`, the wall-clock time at any uptime once set.
- `adapters/`: the traits that hardware drivers implement (`Tick`,
  `UptimeCounter`, `UptimeOverflow`, `AlarmCounter`, ...) and `SleepPlan`,
  the compare values or delays that make up one sleep of an alarm timer.
- `alarm.rs`: `SubscriptionQueue`, the sleeps of an alarm kept in expiry
  order, and the chunked busy-wait of `burn_nanos`; `subscription.rs`: the
  state a sleep shares with its alarm.
- `uptime_drv.rs`, `uptime_ticks.rs`: an uptime driver. The uptime
  arithmetic (ticks from a sample of overflow count and counter value, and
  that later samples give later uptimes) is proved; the overflow counting
  itself lives in atomics, whose values the contracts cannot follow, so of
  it only freedom from panics and overflow is verified.
- `format.rs`: the text forms of durations and dates.

`app/` holds what awaits, registers interrupts or touches registers: the
`AlarmTimer` and `Alarm` traits with their futures, the uptime driver's
sampling loop and interrupt hook, and the SysTick and STM32F4 drivers.
