//! Verified core of the McDonald's China MCP ordering client: combo
//! selection, order-item construction, response rendering and the
//! request/argument logic around the MCP tools.
use vstd::prelude::*;

pub mod args;
pub mod json;
pub mod meal;
pub mod pick;
pub mod prompt;
pub mod render;
pub mod rpc;
pub mod show;
pub mod show_tables;
pub mod show_orders;
pub mod show_details;
pub mod show_meal;
pub mod show_response;
pub mod session;
pub mod screens;
pub mod menu_page;
pub mod quick;
pub mod mods;
pub mod nav;
pub mod width;
pub mod text;

verus! {
} // verus!
