//! The `init` command: what a new project is made of.
//!
//! The command decides which directories and files a new project gets and
//! what the files hold; creating them is left to the caller.

use vstd::prelude::*;

verus! {

/// What stands before the package name in the manifest of a new project.
pub const MANIFEST_HEAD: &'static str = "[package]\nname = \"";

/// What stands after the package name in the manifest of a new project.
pub const MANIFEST_TAIL: &'static str =
    "\"\nversion = \"0.1.0\"\ndescription = \"A Roblox package\"\nauthor = \"Your Name <your.email@example.com>\"\n\n[dependencies]\n# Format: \"username/package-name\" = \"version\"\n# Example: \"sesocell/profilestore\" = \"1.0.0\"\n";

/// What stands between the package name and the description in a manifest
/// made from the user's answers.
pub const ANSWERS_VERSION: &'static str = "\"\nversion = \"0.1.0\"\ndescription = \"";

/// What stands between the description and the author in a manifest made
/// from the user's answers.
pub const ANSWERS_AUTHOR: &'static str = "\"\nauthor = \"";

/// What ends a manifest made from the user's answers.
pub const ANSWERS_TAIL: &'static str =
    "\"\n\n[dependencies]\n# Format: \"username/package-name\" = \"version\"\n# Example: \"sesocell/profilestore\" = \"1.0.0\"\n";

/// What a new project tells git to ignore.
pub const GITIGNORE: &'static str = "# MSC\n.msc/\n.packages/\n";

/// What stands before the package name in the readme of a new project.
pub const README_HEAD: &'static str = "# ";

/// What stands after the package name in the readme of a new project.
pub const README_TAIL: &'static str =
    "\n\nA Roblox package managed by MSC.\n\n## Installation\n\n";

/// The manifest of a new project named `name`.
pub open spec fn manifest_of(name: Seq<char>) -> Seq<char> {
    MANIFEST_HEAD@ + name + MANIFEST_TAIL@
}

/// The manifest of a new project made from the user's answers.
pub open spec fn manifest_from_answers(
    name: Seq<char>,
    description: Seq<char>,
    author: Seq<char>,
) -> Seq<char> {
    MANIFEST_HEAD@ + name + ANSWERS_VERSION@ + description + ANSWERS_AUTHOR@ + author
        + ANSWERS_TAIL@
}

/// The readme of a new project named `name`.
pub open spec fn readme_of(name: Seq<char>) -> Seq<char> {
    README_HEAD@ + name + README_TAIL@
}

/// The mathematical value of a [`ScaffoldStep`].
pub enum ScaffoldStepView {
    CreateDirectory { path: Seq<char> },
    WriteFile { path: Seq<char>, content: Seq<char> },
}

/// One thing to do to lay out a new project. Paths are relative to the
/// project directory.
#[derive(Clone, Debug, PartialEq, Eq)]
pub enum ScaffoldStep {
    /// Make sure that this directory exists.
    CreateDirectory { path: String },
    /// Write this content to this file, replacing what is there.
    WriteFile { path: String, content: String },
}

impl View for ScaffoldStep {
    type V = ScaffoldStepView;

    open spec fn view(&self) -> ScaffoldStepView {
        match self {
            ScaffoldStep::CreateDirectory { path } => ScaffoldStepView::CreateDirectory {
                path: path@,
            },
            ScaffoldStep::WriteFile { path, content } => ScaffoldStepView::WriteFile {
                path: path@,
                content: content@,
            },
        }
    }
}

/// How a new project named `name` is laid out: the manifest, the source
/// and test directories, the ignore file and the readme, in this order.
pub open spec fn scaffold_of(name: Seq<char>) -> Seq<ScaffoldStepView> {
    seq![
        ScaffoldStepView::WriteFile { path: "msc.toml"@, content: manifest_of(name) },
        ScaffoldStepView::CreateDirectory { path: "src"@ },
        ScaffoldStepView::CreateDirectory { path: "test"@ },
        ScaffoldStepView::WriteFile { path: ".gitignore"@, content: GITIGNORE@ },
        ScaffoldStepView::WriteFile { path: "README.md"@, content: readme_of(name) },
    ]
}

/// The values of a list of steps.
pub open spec fn steps_of(steps: Seq<ScaffoldStep>) -> Seq<ScaffoldStepView> {
    Seq::new(steps.len(), |i: int| steps[i]@)
}

/// The `init` command.
#[derive(Clone, Copy, Debug)]
pub struct InitCommand;

impl InitCommand {
    /// The command.
    pub fn new() -> (command: InitCommand) {
        InitCommand
    }

    /// The manifest of a new project named `name`.
    pub fn manifest_text(&self, name: &str) -> (text: String)
        ensures
            text@ == manifest_of(name@),
    {
        let mut text = MANIFEST_HEAD.to_owned();
        text.append(name);
        text.append(MANIFEST_TAIL);
        text
    }

    /// The readme of a new project named `name`.
    pub fn readme_text(&self, name: &str) -> (text: String)
        ensures
            text@ == readme_of(name@),
    {
        let mut text = README_HEAD.to_owned();
        text.append(name);
        text.append(README_TAIL);
        text
    }

    /// What to do, in order, to lay out a new project named `name` in a
    /// project directory that exists.
    pub fn execute(&self, name: &str) -> (steps: Vec<ScaffoldStep>)
        ensures
            steps_of(steps@) == scaffold_of(name@),
    {
        let mut steps: Vec<ScaffoldStep> = Vec::new();
        steps.push(
            ScaffoldStep::WriteFile {
                path: "msc.toml".to_owned(),
                content: self.manifest_text(name),
            },
        );
        steps.push(ScaffoldStep::CreateDirectory { path: "src".to_owned() });
        steps.push(ScaffoldStep::CreateDirectory { path: "test".to_owned() });
        steps.push(
            ScaffoldStep::WriteFile { path: ".gitignore".to_owned(), content: GITIGNORE.to_owned() },
        );
        steps.push(
            ScaffoldStep::WriteFile {
                path: "README.md".to_owned(),
                content: self.readme_text(name),
            },
        );
        assert(steps_of(steps@) =~= scaffold_of(name@));
        steps
    }
}

/// The manifest of a new project made from what the user answered when asked
/// for a description and an author.
pub fn manifest_text(name: &str, description: &str, author: &str) -> (text: String)
    ensures
        text@ == manifest_from_answers(name@, description@, author@),
{
    let mut text = MANIFEST_HEAD.to_owned();
    text.append(name);
    text.append(ANSWERS_VERSION);
    text.append(description);
    text.append(ANSWERS_AUTHOR);
    text.append(author);
    text.append(ANSWERS_TAIL);
    text
}

} // verus!
