//! The verbs that are asked about.
use vstd::prelude::*;

verus! {

pub const GET: &'static str = "get";

pub const LIST: &'static str = "list";

pub const WATCH: &'static str = "watch";

pub const CREATE: &'static str = "create";

pub const UPDATE: &'static str = "update";

pub const PATCH: &'static str = "patch";

pub const DELETE: &'static str = "delete";

} // verus!
