# gemini-cost

Cost accounting for Gemini API calls, verified with Verus.

- `src/` is the verified library: the `Usage` block (`src/usage.rs`),
  model id normalization (`src/normalize.rs`: Vertex resource paths and
  dated `-preview-MM-DD` / `-exp-MM-DD` snapshots resolve to the AI Studio
  alias), and the pricing decisions (`src/pricing.rs`: the long-prompt
  tier, counted on fresh plus cached input, and the model of the price
  table that an id names).
- `app/` holds the `f64` side: the `Pricing` rates, `cost_for`, the
  built-in price table, `default_pricing`, and a serde-enabled copy of
  `Usage`.
- `tests/` runs the library on concrete values.
