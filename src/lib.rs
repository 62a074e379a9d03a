//! An mdBook preprocessor engine: it expands `{% embed app key=value %}` markers in
//! chapter text into rendered templates, keeps text inside
//! `<!-- embed ignore begin -->` / `<!-- embed ignore end -->` as it is, and appends
//! the templates that the configuration switches on to every chapter.
//!
//! The template renderer itself is not part of this crate: the engine lists the
//! template calls a chapter needs (`Embed::chapter_calls`) and assembles the chapter
//! from their rendered texts (`Embed::render_chapter`).
use vstd::prelude::*;

pub mod text;
pub mod options;
pub mod marker;
pub mod ignore;
pub mod pipeline;
pub mod laws;

pub use ignore::{protect_ignored, restore_ignored};
pub use marker::{expand_embeds, find_embeds, TemplateCall};
pub use options::parse_options;
pub use pipeline::{
    announcement_banner_call, footer_call, giscus_call, global_calls, scroll_to_top_call,
    setting_or, Embed, Settings,
};

verus! {

} // verus!
