pub mod attempt;
pub mod run_state;
pub mod xcom;
