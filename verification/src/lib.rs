//! A YAML-described HTTP test runner: the decisions it takes, stated and proved.
pub mod filters;
pub mod models;
pub mod ordering;
pub mod pipeline;
pub mod strings;
pub mod templating;
pub mod test_model;
pub mod validation;
