//! Mirrors a build server's job tree onto local storage.
//!
//! The crawl walks jobs and sub-jobs one response at a time: each step here takes what a
//! fetch returned and says what to fetch next or what the job is; the caller performs the
//! requests. The job list is kept as a JSON snapshot, from which, or from a live crawl, the
//! build URLs to dump are collected.

pub mod json;
pub mod text;
pub mod jobs;
pub mod crawl;
pub mod builds;
pub mod cli;
