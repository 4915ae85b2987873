//! Parts of a static analyser for PHP.
//!
//! - Whether the typed properties of a class are initialized: [`initialization`].
//! - What the declaration of a class, an interface, a trait or an enum says: [`class_like`].
//! - The types of constant expressions: [`inference`].
//! - What has to be done to complete a codebase, and in which order: [`populator`].
//! - The types that functions return which only call others: [`return_hints`].
//! - Which changes of files matter, and what they change: [`watcher`].
//!
//! Each of these modules computes what the mathematical functions in its contracts say. The modules
//! whose names end in `_model` hold such functions where there are many of them, and those whose
//! names end in `_laws` what holds of them as a whole.

pub mod arithmetic;
pub mod array_laws;
pub mod changes;
pub mod class_docblock;
pub mod class_like;
pub mod class_like_laws;
pub mod class_members;
pub mod class_tags;
pub mod class_update;
pub mod codebase;
pub mod collections;
pub mod database;
pub mod declaration_laws;
pub mod docblock;
pub mod enum_laws;
pub mod exclusions;
pub mod expression;
pub mod fault_laws;
pub mod file_laws;
pub mod globs;
pub mod inference;
pub mod inference_laws;
pub mod inference_rules;
pub mod initialization;
pub mod initialization_issues;
pub mod initialization_laws;
pub mod initialization_model;
pub mod issue;
pub mod keyed_items;
pub mod member_laws;
pub mod metadata;
pub mod numeric;
pub mod paths;
pub mod population_laws;
pub mod populator;
pub mod populator_laws;
pub mod populator_model;
pub mod predefined;
pub mod registration_laws;
pub mod report_laws;
pub mod return_hints;
pub mod return_hints_laws;
pub mod return_hints_model;
pub mod tag_laws;
pub mod trust_laws;
pub mod ttype;
pub mod type_build;
pub mod type_copy;
pub mod type_eq;
pub mod watch;
pub mod watcher;
pub mod word;
