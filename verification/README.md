# tx_processor

A ledger of client accounts driven by CSV rows of deposits, withdrawals,
disputes, resolutions and chargebacks, verified with Verus.

- `src/` is the verified library: amounts as `rust_decimal` keeps them, with
  its arithmetic, comparison, parsing and printing behind trusted wrappers
  (`amount`), text routines (`text`), the records (`types`), the abstract
  ledger and what each operation does to it (`ledger`), the accounts
  (`accounts`), routing (`dispatcher`, `input_record_processor`), reading
  header and data rows (`parser`), the whole run from CSV bytes to output
  lines and refusals, with the `csv` crate behind a trusted wrapper
  (`driver`), the output text (`output`), and the ledger's laws (`laws`).
- `app/` is the command line: it reads the file's bytes, hands them to the
  library, reports each refusal on stderr and writes the output lines.
- `tests/` runs the library on concrete inputs.
