//! Core of an online-judge grading service.
//!
//! A submission (source text, language tag, problem id) is judged by staging
//! the source on disk, compiling it once, running the artifact once per
//! testcase with redirected standard streams, comparing each run's output
//! against the expected reference, and aggregating a final verdict.
//!
//! This crate holds the verified logic of that engine: the command-template
//! registry and its placeholder resolution, the staging plan, the line
//! comparator, the per-submission aggregation record with its one-shot
//! finalizer, the verdict mapping, and the scheduling state of the worker
//! pool. Process management and file access live with the callers, which
//! feed plain values in and carry the decisions out.

pub mod aggregation;
pub mod comparer;
pub mod config;
pub mod diff;
pub mod compiler;
pub mod pool;
pub mod recipe;
pub mod runner;
pub mod staging;
pub mod submission;
pub mod task;
pub mod testcases;
pub mod text;
pub mod verdict;
