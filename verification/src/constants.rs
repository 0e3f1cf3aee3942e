//! The names that the core knows built-in modules, types and functions by.

use vstd::prelude::*;

verus! {

pub const MAIN_MODULE: &'static str = "Main";

pub const MAIN_FUNCTION: &'static str = "main";

pub const BOOL_MODULE_NAME: &'static str = "Data.Bool";

pub const BOOL_TYPE_NAME: &'static str = "Bool";

pub const INT_MODULE_NAME: &'static str = "Data.Int";

pub const INT_TYPE_NAME: &'static str = "Int";

pub const FLOAT_MODULE_NAME: &'static str = "Data.Float";

pub const FLOAT_TYPE_NAME: &'static str = "Float";

pub const STRING_MODULE_NAME: &'static str = "Data.String";

pub const STRING_TYPE_NAME: &'static str = "String";

pub const LIST_MODULE_NAME: &'static str = "Data.List";

pub const LIST_TYPE_NAME: &'static str = "List";

pub const OPTION_MODULE_NAME: &'static str = "Data.Option";

pub const OPTION_TYPE_NAME: &'static str = "Option";

pub const ORDERING_MODULE_NAME: &'static str = "Data.Ordering";

pub const ORDERING_TYPE_NAME: &'static str = "Ordering";

pub const SHOW_CLASS_NAME: &'static str = "Show";

pub const SHOW_MEMBER_NAME: &'static str = "show";

pub const PARTIALEQ_CLASS_NAME: &'static str = "PartialEq";

pub const PARTIALEQ_MEMBER_NAME: &'static str = "opEq";

pub const PARTIALORD_CLASS_NAME: &'static str = "PartialOrd";

pub const PARTIALORD_MEMBER_NAME: &'static str = "partialCmp";

pub const ORD_CLASS_NAME: &'static str = "Ord";

pub const ORD_MEMBER_NAME: &'static str = "cmp";

} // verus!
