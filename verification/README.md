# calc

A pocket-calculator engine, verified with Verus.

* `src/calc/expression.rs`: expression units (numbers, operators, brackets),
  the operator table, and the operator-precedence expression builder.
* `src/calc/calculator.rs`: the keypad state machine (digits, operators,
  constants, memory, clear, delete, evaluate).
* `src/calc/model.rs`: the mathematical model that every contract refers to.
* `src/calc/laws.rs`: properties proved across operations.
* `src/calc/numbers.rs`: the interface to the arithmetic, which the engine
  takes from its caller as two functions; `src/calc/text.rs`: char helpers.
* `app/`: the `f64` arithmetic and a calculator that uses it.
