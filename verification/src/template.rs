//! The names of the pages and files this tool renders.

use vstd::prelude::*;

verus! {

/// Every template the tool renders, by role.
#[derive(Clone, Copy, Debug, PartialEq, Eq, Structural)]
pub enum TemplateName {
    /// The directory-listing page.
    Index,
    /// A new project's landing page.
    ProjectIndex,
    /// A new project's CSS entry point.
    ProjectCss,
    /// A new project's compiler configuration.
    TailwindConfig,
}

/// The file name each template renders to.
pub open spec fn file_name_of(t: TemplateName) -> Seq<char> {
    match t {
        TemplateName::Index => "index.html"@,
        TemplateName::ProjectIndex => "project_index.html"@,
        TemplateName::ProjectCss => "project_app_css.css"@,
        TemplateName::TailwindConfig => "tailwind.config.js"@,
    }
}

impl TemplateName {
    /// The file name this template renders to.
    pub fn file_name(&self) -> (r: String)
        ensures
            r@ == file_name_of(*self),
    {
        match self {
            TemplateName::Index => String::from_str("index.html"),
            TemplateName::ProjectIndex => String::from_str("project_index.html"),
            TemplateName::ProjectCss => String::from_str("project_app_css.css"),
            TemplateName::TailwindConfig => String::from_str("tailwind.config.js"),
        }
    }
}

} // verus!
