# hanabi_search

Verified convention logic for standard five-suit Hanabi: the cumulative
H-Group convention registry and its parsers, the convention-agnostic baseline
policy, request-local analysis control, and the H-Group building blocks that
the search engine composes: hand positions, Good Touch admission, connection
promises and their queueing, convention facts and their journal, exact
identity claims, the Priority flowchart, clue values, action preferences and
classification, constraint derivation and the symbolic constraint graph, the
action schedule, the compiled line of a clue, observer beliefs, the
completion schedule, frontier resource measures, the opportunities a root
clue opens or forgoes, the draw-distribution discard handoff, the score
ceiling, the ordering of the current player's convention actions, and the
selection of the single action the policy takes, with its last-strike
caution.

The library does not hold the analysis that composes these pieces into a
full position analysis, nor the planner: connection scheduling from a clue,
replay inference of the convention state, clue outcome compilation and
frontier evaluation. Where a building block needs a judgement that those
parts make (whether a clue may defer a connection, which discard is the
chosen one, which cards are playable in which order), it takes that
judgement as an input, and its contract is stated over it.

Positions are read through plain models: a hand is a list of cards, each with
its identifier and, when the observer sees it, its identity; stacks are their
heights; connection steps, convention facts and clue readings are the
library's own types.

Layout:

- `src/` — the library, written in Verus. Every function carries a contract
  and is verified; laws that relate several functions are public proof
  functions next to them.
- `tests/` — executable tests of the library.
- `app/` — the floating-point search utility, which the verifier cannot
  reason about.
