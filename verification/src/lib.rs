use vstd::prelude::*;

pub mod arn;
pub mod backup;
pub mod bootstrapper;
pub mod catalog;
pub mod config;
pub mod db_util;
pub mod ddl;
pub mod error;
pub mod index;
pub mod index_rows;
pub mod iam;
pub mod key;
pub mod management;
pub mod operations;
pub mod paging;
pub mod pg_bootstrap;
pub mod query;
pub mod secrets;
pub mod streams;
pub mod text;
pub mod transact;
pub mod types;
pub mod vector_scoring;

verus! {
} // verus!
