//! The project declaration of a script, and the flag tokens that
//! `add_project_arguments` appends to the argument log.
use vstd::prelude::*;

verus! {

/// The declared project: its name and version.
pub struct ProjectInfo {
    pub name: String,
    pub version: String,
}

/// Why a project operation failed.
#[derive(Clone, Copy, Debug, PartialEq, Eq, Structural)]
pub enum ProjectError {
    /// `project()` was called a second time.
    AlreadyDeclared,
    /// The version was asked for before `project()` was called.
    NotDeclared,
}

/// The project declaration of a run, set at most once.
pub struct ProjectState {
    pub info: Option<ProjectInfo>,
}

impl ProjectState {
    /// No project declared yet.
    pub fn new() -> (r: ProjectState)
        ensures
            r.info is None,
    {
        ProjectState { info: None }
    }

    /// Declares the project; a second declaration is refused and changes
    /// nothing.
    pub fn declare(&mut self, name: String, version: String) -> (r: Result<(), ProjectError>)
        ensures
            old(self).info is Some ==> r == Err::<(), ProjectError>(ProjectError::AlreadyDeclared)
                && *final(self) == *old(self),
            old(self).info is None ==> r is Ok && final(self).info == Some(
                ProjectInfo { name, version },
            ),
    {
        if self.info.is_some() {
            return Err(ProjectError::AlreadyDeclared);
        }
        self.info = Some(ProjectInfo { name, version });
        Ok(())
    }

    /// The declared version, or `NotDeclared` before `project()`.
    pub fn project_version(&self) -> (r: Result<String, ProjectError>)
        ensures
            match self.info {
                Some(p) => r matches Ok(v) && v@ == p.version@,
                None => r == Err::<String, ProjectError>(ProjectError::NotDeclared),
            },
    {
        match &self.info {
            Some(p) => Ok(p.version.clone()),
            None => Err(ProjectError::NotDeclared),
        }
    }
}

/// An argument of `add_project_arguments`.
pub enum ArgumentValue {
    /// One flag.
    Text(String),
    /// A list of flags.
    List(Vec<String>),
    /// A value of another type, which is refused.
    Other,
}

/// `add_project_arguments` was given something other than a string or a
/// list of strings.
#[derive(Clone, Copy, Debug, PartialEq, Eq, Structural)]
pub enum ArgumentsError {
    UnsupportedArgument,
}

/// The flags, each followed by a space.
pub open spec fn spaced(v: Seq<String>) -> Seq<char>
    decreases v.len(),
{
    if v.len() == 0 {
        Seq::empty()
    } else {
        spaced(v.drop_last()) + v.last()@ + " "@
    }
}

/// The tokens appended for the arguments, or `None` when one of them is
/// neither a string nor a list of strings.
pub open spec fn argument_tokens(args: Seq<ArgumentValue>) -> Option<Seq<char>>
    decreases args.len(),
{
    if args.len() == 0 {
        Some(Seq::empty())
    } else {
        match argument_tokens(args.drop_last()) {
            None => None,
            Some(t) => match args.last() {
                ArgumentValue::Text(s) => Some(t + s@ + " "@),
                ArgumentValue::List(v) => Some(t + spaced(v@)),
                ArgumentValue::Other => None,
            },
        }
    }
}

proof fn lemma_tokens_none_stays(args: Seq<ArgumentValue>, i: int, j: int)
    requires
        0 <= i <= j <= args.len(),
        argument_tokens(args.take(i)) is None,
    ensures
        argument_tokens(args.take(j)) is None,
    decreases j - i,
{
    if i < j {
        lemma_tokens_none_stays(args, i, j - 1);
        assert(args.take(j).drop_last() =~= args.take(j - 1));
    }
}

/// The text that `add_project_arguments` appends to the argument log: every
/// flag, in order, followed by a space.
pub fn project_arguments_text(args: &Vec<ArgumentValue>) -> (r: Result<String, ArgumentsError>)
    ensures
        match argument_tokens(args@) {
            Some(t) => r matches Ok(s) && s@ == t,
            None => r == Err::<String, ArgumentsError>(ArgumentsError::UnsupportedArgument),
        },
{
    let mut out = String::new();
    let mut i: usize = 0;
    while i < args.len()
        invariant
            i <= args.len(),
            argument_tokens(args@.take(i as int)) == Some(out@),
        decreases args.len() - i,
    {
        assert(args@.take(i + 1).drop_last() =~= args@.take(i as int));
        match &args[i] {
            ArgumentValue::Text(s) => {
                out.append(s.as_str());
                out.append(" ");
            },
            ArgumentValue::List(v) => {
                let ghost before = out@;
                let mut k: usize = 0;
                while k < v.len()
                    invariant
                        k <= v.len(),
                        out@ == before + spaced(v@.take(k as int)),
                    decreases v.len() - k,
                {
                    assert(v@.take(k + 1).drop_last() =~= v@.take(k as int));
                    out.append(v[k].as_str());
                    out.append(" ");
                    k = k + 1;
                }
                assert(v@.take(v.len() as int) =~= v@);
            },
            ArgumentValue::Other => {
                proof {
                    lemma_tokens_none_stays(args@, i + 1, args@.len() as int);
                    assert(args@.take(args@.len() as int) =~= args@);
                }
                return Err(ArgumentsError::UnsupportedArgument);
            },
        }
        i = i + 1;
    }
    assert(args@.take(args.len() as int) =~= args@);
    Ok(out)
}

} // verus!
