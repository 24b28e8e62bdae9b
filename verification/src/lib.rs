//! Verified core of a command line tool for OpenAlex snapshots.

pub mod check;
pub mod config;
pub mod convert;
pub mod csvfile;
pub mod display;
pub mod download;
pub mod explain;
pub mod extract;
pub mod files;
pub mod help;
pub mod housekeeping;
pub mod index;
pub mod inference;
pub mod jobs;
pub mod json;
pub mod layout;
pub mod order;
pub mod paths;
pub mod pipeline;
pub mod plan;
pub mod profile;
pub mod progress;
pub mod records;
pub mod repair;
pub mod report;
pub mod runs;
pub mod schema;
pub mod settings;
pub mod split;
pub mod sql;
pub mod templates;
pub mod text;
pub mod textmap;
pub mod verify;
