pub mod functions;
pub mod numbers;
pub mod text;
pub mod model;
pub mod expression;
pub mod calculator;


pub mod laws;
pub mod keypad;
