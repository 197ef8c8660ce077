//! Project scaffolding: the plan of directories and files a new project
//! gets. The shell creates them and renders the templates.

use vstd::prelude::*;
use crate::server::error::Error;
use crate::template::TemplateName;

verus! {

/// What `init` was asked to create.
pub struct InitArgs {
    /// The project's name, also the directory it is created in.
    pub project_name: String,
}

/// One file the plan creates.
pub struct FilePlan {
    /// Where the file goes, relative to the working directory.
    pub path: String,
    /// The template that fills it, or nothing for an empty file.
    pub template: Option<TemplateName>,
}

/// Everything `init` creates, directories first.
pub struct InitPlan {
    /// The directories to create, parents before children.
    pub dirs: Vec<String>,
    /// The files to create, in order.
    pub files: Vec<FilePlan>,
}

/// Plans a new project's directories and files.
///
/// Refused when the project directory already exists. Otherwise the plan is
/// the project directory with `src` and `dist` under it, a compiler
/// configuration, a landing page, a CSS entry point, and an empty compiled
/// stylesheet.
pub fn plan(args: &InitArgs, dir_exists: bool) -> (r: Result<InitPlan, Error>)
    ensures
        dir_exists ==> (r matches Err(e) && e matches Error::ProjectDirExists(n) && n@
            == args.project_name@),
        !dir_exists ==> ({
            &&& r matches Ok(p)
            &&& p.dirs@.len() == 3
            &&& p.dirs@[0]@ == args.project_name@
            &&& p.dirs@[1]@ == args.project_name@ + "/src"@
            &&& p.dirs@[2]@ == args.project_name@ + "/dist"@
            &&& p.files@.len() == 4
            &&& p.files@[0].path@ == args.project_name@ + "/tailwind.config.js"@
            &&& p.files@[0].template == Some(TemplateName::TailwindConfig)
            &&& p.files@[1].path@ == args.project_name@ + "/index.html"@
            &&& p.files@[1].template == Some(TemplateName::ProjectIndex)
            &&& p.files@[2].path@ == args.project_name@ + "/src/app.css"@
            &&& p.files@[2].template == Some(TemplateName::ProjectCss)
            &&& p.files@[3].path@ == args.project_name@ + "/dist/app.css"@
            &&& p.files@[3].template is None
        }),
{
    if dir_exists {
        return Err(Error::ProjectDirExists(args.project_name.clone()));
    }
    let mut dirs: Vec<String> = Vec::new();
    dirs.push(args.project_name.clone());
    dirs.push(args.project_name.clone().concat("/src"));
    dirs.push(args.project_name.clone().concat("/dist"));
    let mut files: Vec<FilePlan> = Vec::new();
    files.push(
        FilePlan {
            path: args.project_name.clone().concat("/tailwind.config.js"),
            template: Some(TemplateName::TailwindConfig),
        },
    );
    files.push(
        FilePlan {
            path: args.project_name.clone().concat("/index.html"),
            template: Some(TemplateName::ProjectIndex),
        },
    );
    files.push(
        FilePlan {
            path: args.project_name.clone().concat("/src/app.css"),
            template: Some(TemplateName::ProjectCss),
        },
    );
    files.push(
        FilePlan { path: args.project_name.clone().concat("/dist/app.css"), template: None },
    );
    Ok(InitPlan { dirs, files })
}

} // verus!
