//! A retry queue for publish jobs: a table of job records with enqueue,
//! age-based purge, earliest-due-first selection and success / failure
//! reporting, each operation verified against a mathematical model of the
//! table. Beside it stand the decisions of the notes store.

mod clock;
pub mod error;
pub mod history;
pub mod job;
pub mod laws;
pub mod model;
pub mod notes;
pub mod repository;
pub mod table;
