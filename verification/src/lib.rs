//! The verified core of an API service: Elastic Common Schema log lines with
//! deep-merged extra fields, and the roles of its callers.

pub mod authentication;
pub mod logging;
mod text;
