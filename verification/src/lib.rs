//! A pocket calculator engine: operator-precedence expression building,
//! rendering and evaluation of the built trees, and the input state
//! machine of a calculator keypad.
//!
//! The engine never touches floating-point numbers itself. Reading a number
//! from a token and applying an operator to numbers are supplied by the
//! caller as two functions (see `calc::numbers`); everything else is
//! verified against the models in `calc::model`.

pub mod calc;
