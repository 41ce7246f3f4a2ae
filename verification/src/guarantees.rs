//! What the operations are for, said of their inputs and results alone.

pub mod access;
pub mod addresses;
pub mod administering;
pub mod answering;
pub mod counting;
pub mod drafting;
pub mod evaluating;
pub mod filing;
pub mod languages;
pub mod listing;
pub mod operations;
pub mod reading;
pub mod review;
pub mod routing;
pub mod screening;
pub mod sealing;
pub mod serving;
pub mod sessions;
pub mod storing;
pub mod wording;
