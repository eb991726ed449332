//! Build-time asset optimization for a small static site.
//!
//! Content records (blog posts with markdown bodies and YAML front matter,
//! experiment records) become a page model, an external template renderer
//! turns the model into HTML, and this library's streaming rewriter then
//! walks that HTML once, replacing stylesheet links, script tags, local
//! images and icon glyphs with optimized, self-contained markup. A
//! concurrent image phase prepares resized variants and perceptual
//! placeholders ahead of the rewrite and records them in a build-scoped
//! registry.
//!
//! The rewriter and everything it computes — variant naming, `srcset`
//! construction, icon path mapping, date handling, the registry — is
//! verified; decoding, resizing, hashing and base64 go through the `image`,
//! `thumbhash` and `base64` crates behind trusted wrappers.

pub mod cards;
pub mod date;
pub mod handlers;
pub mod html;
pub mod images;
pub mod kv;
pub mod modules;
pub mod paths;
pub mod pipeline;
pub mod registry;
pub mod rewrite;
pub mod srcset;
pub mod text;
