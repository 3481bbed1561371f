use vstd::prelude::*;

pub mod text;
pub mod urlencoded;
pub mod bbcode;
pub mod bbcode_laws;
pub mod bbcode_safety;
pub mod config;
pub mod pages;
pub mod permute;
pub mod forms;
pub mod hbs_custom;
pub mod routing;
pub mod links;
pub mod json;
pub mod api_data;
pub mod response;
pub mod routes;
pub mod warp;

verus! {
} // verus!
