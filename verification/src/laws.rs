//! What holds of the compiler and of the machine as a whole, each statement
//! proved from the definitions of the two.
pub mod cells;
pub mod classes;
pub mod determinism;
pub mod heights;
pub mod jumps;
pub mod jumps_exp;
pub mod jumps_fun;
pub mod jumps_stmt;
pub mod levels;
pub mod levels_exp;
pub mod levels_fun;
pub mod levels_prim;
pub mod levels_stmt;
pub mod marks;
pub mod plain;
pub mod sealing;
