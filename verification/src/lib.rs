pub mod fuzzer;
pub mod grammar;
pub mod logger;
pub mod rng;
pub mod runner;
pub mod seeder;
pub mod text;
