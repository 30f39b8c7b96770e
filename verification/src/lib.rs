//! Client-side engine for a line-oriented, length-prefixed job-queue
//! protocol: command encoding, status-line classification, and exact
//! length-prefixed payload extraction over a byte-stream transport.

#![allow(unused_imports)]

use vstd::prelude::*;

mod beanstalkd;
pub mod commands;
mod error;
pub mod laws;
pub mod parse;
pub mod request;
mod response;
pub mod text;
pub mod transport;

pub use beanstalkd::{
    count_result, drain_post, failure_result, id_result, job_result, opt_job_result, peek_command_for,
    stats_result, unit_result, Beanstalkd, JobState,
};
pub use error::{BeanstalkdError, BeanstalkdResult};
pub use response::{Response, Status};
