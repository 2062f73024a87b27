//! The project catalogue of a personal site: loading the list of projects
//! and showing it as cards.
//!
//! The library decides and computes; it neither fetches nor draws. A page
//! ([`pages`]) asks for its list through a controller ([`controller`]) over a
//! single-flight cache ([`resource`]), is handed what the store answered
//! ([`store`]), and renders the list as cards ([`card`]) that keep their
//! identity from one list to the next ([`renderer`]). What is to be fetched
//! comes out as a query, what was fetched goes in as an outcome, and what is
//! to be drawn comes out as plain values.

pub mod card;
pub mod controller;
pub mod models;
pub mod pages;
pub mod renderer;
pub mod resource;
pub mod store;
pub mod technology;
pub mod text;

pub use crate::card::{PinnedProjectCard, ProjectCard};
pub use crate::models::Project;
pub use crate::pages::{HomePage, Projects};
pub use crate::store::{get_pinned_projects, get_projects};
