pub mod auth;
pub mod db;
pub mod error;
pub mod laws;
pub mod notes;
pub mod order;
pub mod outside;
pub mod paging;
pub mod records;
pub mod router;
pub mod seqs;
pub mod status;
pub mod stores;
pub mod text;
pub mod users;
