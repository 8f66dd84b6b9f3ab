//! Helpers for templates: what the helpers of a template engine compute, as
//! functions from plain values to plain values, each with a contract that
//! Verus proves.
//!
//! - [`json`] holds JSON documents, [`toml_value`] the TOML values that can be
//!   written for them, and [`json_helpers`] reads and writes documents as JSON,
//!   YAML and TOML and searches them.
//! - [`expression`] compiles and searches query expressions; [`numbers`] checks
//!   the numbers of an expression before it is parsed, and [`errors`] holds what
//!   can go wrong with one.
//! - [`text`], [`string_helpers`], [`region_helpers`] and [`regex_helpers`] work
//!   on texts; [`assign_helpers`] on the data of a template's context;
//!   [`env_helpers`], [`path_helpers`], [`http_helpers`], [`jsonnet_helpers`],
//!   [`truth_helpers`], [`uuid_helpers`] and [`outputs`] serve the helpers of
//!   those names.
//!
//! Parsing and writing the data formats, parsing and evaluating expressions,
//! regular expressions and Jsonnet are the work of other crates. Each call into
//! one of them is a private function marked `external_body`, whose comment
//! names the function that it calls and says what is taken on trust of it.

pub mod assign_helpers;
pub mod env_helpers;
pub mod errors;
pub mod expression;
pub mod http_helpers;
pub mod json;
pub mod json_helpers;
pub mod jsonnet_helpers;
pub mod numbers;
pub mod outputs;
pub mod path_helpers;
pub mod regex_helpers;
pub mod region_helpers;
pub mod string_helpers;
pub mod text;
pub mod toml_value;
pub mod truth_helpers;
pub mod uuid_helpers;
