use vstd::prelude::*;

verus! {

/// One step of an operation on the host, as the library plans it. The caller
/// performs the steps in order and stops at the first one that fails.
#[derive(Debug, Clone, PartialEq, Eq)]
pub enum Action {
    /// Run a shell command; a non-zero exit status fails the operation.
    Run(String),
    /// Run a shell command and ignore its exit status.
    RunAny(String),
    /// Run a shell command; a failure is reported and the operation goes on.
    Advisory(String),
    /// Set the permission bits of a path.
    Chmod(String, u32),
    /// Create a directory and any missing parents.
    CreateDirAll(String),
    /// Remove a directory tree.
    RemoveDirAll(String),
    /// Remove an empty directory; a failure is ignored.
    RemoveDir(String),
    /// Remove a file or a symbolic link; a failure is ignored.
    RemoveFile(String),
    /// Write the whole content of a file.
    WriteFile(String, String),
    /// Change the working directory.
    Chdir(String),
    /// Seed the repository with its first commit, from a scratch clone
    /// (see `Repository::initial_commit`).
    InitialCommit,
    /// Regenerate the browser catalog of the user with this login
    /// (see `catalog_text`).
    UpdateCatalog(String),
}

/// An `Action` over character sequences.
pub enum Step {
    Run(Seq<char>),
    RunAny(Seq<char>),
    Advisory(Seq<char>),
    Chmod(Seq<char>, u32),
    CreateDirAll(Seq<char>),
    RemoveDirAll(Seq<char>),
    RemoveDir(Seq<char>),
    RemoveFile(Seq<char>),
    WriteFile(Seq<char>, Seq<char>),
    Chdir(Seq<char>),
    InitialCommit,
    UpdateCatalog(Seq<char>),
}

impl View for Action {
    type V = Step;

    open spec fn view(&self) -> Step {
        match self {
            Action::Run(c) => Step::Run(c@),
            Action::RunAny(c) => Step::RunAny(c@),
            Action::Advisory(c) => Step::Advisory(c@),
            Action::Chmod(p, m) => Step::Chmod(p@, *m),
            Action::CreateDirAll(p) => Step::CreateDirAll(p@),
            Action::RemoveDirAll(p) => Step::RemoveDirAll(p@),
            Action::RemoveDir(p) => Step::RemoveDir(p@),
            Action::RemoveFile(p) => Step::RemoveFile(p@),
            Action::WriteFile(p, c) => Step::WriteFile(p@, c@),
            Action::Chdir(p) => Step::Chdir(p@),
            Action::InitialCommit => Step::InitialCommit,
            Action::UpdateCatalog(l) => Step::UpdateCatalog(l@),
        }
    }
}

/// The steps of a plan.
pub open spec fn steps(v: Seq<Action>) -> Seq<Step> {
    v.map_values(|a: Action| a@)
}

/// Appends the actions of `more` to `plan`.
pub fn append_plan(plan: &mut Vec<Action>, more: Vec<Action>)
    ensures
        steps(final(plan)@) == steps(old(plan)@) + steps(more@),
{
    let mut more = more;
    let ghost a = plan@;
    let ghost b = more@;
    plan.append(&mut more);
    assert(steps(plan@) =~= steps(a) + steps(b));
}

} // verus!
