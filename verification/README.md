# eth_phy

An Ethernet PHY stack written in Verus: the `MdioBus` and
`PhyDriver` traits, IEEE 802.3 Clause 22 register helpers, and drivers for
the Microchip LAN87xx (10/100BASE-T) and LAN867x (10BASE-T1S, with PLCA)
PHY families, each proved against its contract.

## How the contracts read

A bus implementation keeps a ghost *transcript*: every read and write it
served, with the answer it gave. Each driver operation has a spec function
`*_run(t, i, ...)` that reads a transcript `t` from position `i`, checks that
every transaction is the one the operation must issue next (given the bus's
answers so far), and yields the operation's result and where the run ends.
An operation's contract says that the transactions it appended form exactly
one such run and that it returned that run's result. Read answers are free;
everything else — registers, values, order, returned value, driver state —
is fixed.

Laws that span functions or hold of every input (bit-level effects of the
read-modify-write helpers, ordering of the PLCA and auto-negotiation set-up,
what `poll_link` reports in each driver state, that every transaction goes
to the driver's own PHY address, ...) are public `lemma_*` proof functions
next to the code they are about.

The LAN87xx `poll_link` reads BMCR once BMSR reports the link: with
auto-negotiation off (as `force_link` leaves it) the link is BMCR's forced
speed and duplex; with it on, PSCSR is decoded once `AUTODONE` is set.

The LAN867x driver's state (`chip`, PLCA node ID) is modelled as a step
function over call outcomes (`lan867x_step`, `lan867x_state_after`); the
laws over whole call sequences — the chip is what the last `init` found, PLCA
is on exactly when a `configure_plca` since that `init` is still standing,
and the link is reported up with no bus traffic while it is not — are stated
on that model, and each driver method's contract is one step of it.

`MockMdio` (`src/mock.rs`) carries a `replays()` predicate tying its
transcript to its script: the reads answered so far, the writes taken, the
call count and where it fails.

## Layout

- `src/mdio.rs` — `MdioBus`, the transcript model (`MdioOp`, `read_at`,
  `write_at`, `extends`, `addressed_to`).
- `src/types.rs`, `src/phy.rs` — shared types, `PhyError`, `PhyDriver`.
- `src/ieee802_3.rs` (+ `ieee802_3/`) — Clause 22 registers and helpers.
- `src/lan87xx.rs` (+ `lan87xx/`) — LAN87xx driver.
- `src/lan867x.rs` (+ `lan867x/`) — LAN867x driver, MMD indirection, PLCA.
- `src/mock.rs` — a verified scripted bus used by the tests.
- `tests/` — behavioural tests run against the scripted bus.
- `app/` — board wrappers that add a GPIO reset line (`embedded-hal`).
