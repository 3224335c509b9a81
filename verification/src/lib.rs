pub mod number;
pub mod parsed;
pub mod text;
pub mod flavor_builder;
pub mod analyzed;
pub mod dead_column_checker;
pub mod riscv;
pub mod witness_generator;
