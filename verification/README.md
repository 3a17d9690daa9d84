# linera_paper_eval

The evaluation client for token-transfer experiments on a Linera network, with its
decisions verified by Verus.

- `src/` is the verified library:
  - `amount.rs`: token amounts in attotokens, with checked and saturating arithmetic;
  - `chain.rs`: chain identifiers, duplicate detection, a chain's peers;
  - `cycle.rs`: endless rounds over a list, taken a block at a time;
  - `destinations.rs`: where a sending chain's transfers go in each transfer mode;
  - `task.rs`: the state of one sending chain, its outcomes and its pacing;
  - `timings.rs`: result rows and per-outcome totals;
  - `balancing.rs`: the transfers that bring a set of chains to a common balance;
  - `schedule.rs`: the experiments of a run and the steps of each;
  - `names.rs`: the names under which results are stored.
- `app/` is the program: it talks to the network, waits, and writes the CSV files.
- `tests/` runs the library on concrete values.
