# Stellarcade contracts

The rules of ten game contracts for the Stellar network, written and verified
with Verus: battle pass, cooldown manager, game subscription, live odds, NFT
staking, player insurance, points exchange, referral tracker, wager limits and
weekly tournament.

- `src/` holds the rules, with one module for each contract. A contract is a
  value that holds its ledger entries. A call takes an `Env` with the time and
  the contract's address, and leaves in it the list of what it asks of the
  host, in order. The contracts of the functions say what each call returns,
  what becomes of the ledger and what is asked for. The public proof functions
  named `law_..` say what holds across calls.
- `tests/` runs the rules on examples.
- `app/` connects the rules to the Soroban host: it reads the ledger, calls the
  rules and carries out what they ask for.
