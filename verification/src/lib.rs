use vstd::prelude::*;

pub mod binary64;
pub mod icon;
pub mod json;
pub mod market;
pub mod market_v2;
pub mod poll;
pub mod preferences;
pub mod settings;

verus! {

} // verus!
