//! Site tooling for stayhydated project pages: base-path aware routing, route
//! manifests and sitemaps, static-site assembly, Trunk demo pages, release
//! planning, and the plain data behind the shared UI components.
#[allow(unused_imports)]
use vstd::prelude::*;

pub mod text;
pub mod paths;

pub mod routing;
pub mod sitemap;
pub mod manifest;
pub mod route_cache;

pub mod workspace;
pub mod preview;
pub mod web;
pub mod trunk;
pub mod release;

pub mod types;
pub mod presentation;
pub mod ui;
pub mod components;
pub mod projects;
pub mod project_site;
