//! Answer-discovery engine for an online quiz platform.
//!
//! The engine never performs I/O itself: every network exchange is modelled
//! as a command handed to the caller (fetch the test snapshot, submit an
//! answer) and an event handed back (the snapshot arrived, the submission
//! succeeded, the transport failed).  All decisions — which option to probe
//! next, when the cached snapshot must be refetched, how a discovered answer
//! is rendered — are made here and verified.

mod answers;
mod cache;
mod driver;
mod error;
mod laws;
mod machine;
mod model;
mod numstr;
mod oracle;
mod parse;
mod solver;
mod sorting;

pub use cache::TestCache;
pub use driver::solve_question_with;
pub use error::MatetechError;
pub use error::classify_login_status;
pub use error::classify_status;
pub use machine::QCommand;
pub use machine::QuestionSolver;
pub use model::Answer;
pub use model::AnswerValue;
pub use model::CorrespondenceLink;
pub use model::GeneratedAnswer;
pub use model::Question;
pub use model::SelectInputItem;
pub use model::Submission;
pub use model::TestSnapshot;
pub use numstr::u32_to_string;
pub use numstr::u64_to_string;
pub use oracle::Oracle;
pub use parse::parse_solve;
pub use solver::Solver;
