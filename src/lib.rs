//! A multi-tenant comment service: the submission pipeline, tenant routing and
//! the two-level threaded read model.

pub mod text;
pub mod fault;
pub mod comment;
pub mod thread;
pub mod tenant;
pub mod page;
pub mod submit;
