//! Verified core of a small terminal SSH client: connection records, the
//! encrypted connection store, form and picker logic, and text helpers.
#![allow(unused_imports)]

use vstd::prelude::*;

pub mod text;
pub mod model;
pub mod vault;
pub mod layout;
pub mod order;
pub mod listing;
pub mod catalog;
pub mod forms;
pub mod keys;
pub mod terminal;
pub mod commands;
pub mod pickers;
pub mod transfer;
pub mod logs;
pub mod screens;
pub mod backend;
pub mod paths;
