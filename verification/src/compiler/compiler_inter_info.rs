use vstd::prelude::*;

verus! {

/// What a file's compilation hands to the files it includes: whether code
/// started, and the file's path.
pub struct CompilerInterInfo {
    pub code_started: bool,
    pub path: Option<String>,
}

impl CompilerInterInfo {
    pub fn new(path: Option<String>) -> (r: Self)
        ensures
            !r.code_started,
            r.path == path,
    {
        Self { code_started: false, path }
    }

    pub fn clone_info(&self) -> (r: Self)
        ensures
            r.code_started == self.code_started,
            r.path == self.path,
    {
        Self { code_started: self.code_started, path: match &self.path { Some(p) => Some(p.clone()), None => None } }
    }

    /// Take the path out, leaving none.
    pub fn take_path(&mut self) -> (r: Option<String>)
        ensures
            r == old(self).path,
            final(self).path is None,
            final(self).code_started == old(self).code_started,
    {
        let r = self.path.take();
        r
    }

    /// Set the path; there must be none yet.
    pub fn set_path(&mut self, path: String)
        requires
            old(self).path is None,
        ensures
            final(self).path == Some(path),
            final(self).code_started == old(self).code_started,
    {
        self.path = Some(path);
    }

    /// Take in what an included file's compilation learned. An included
    /// file compiles no code, and code cannot stop once started, so the two
    /// agree on whether code started.
    pub fn update_with_other(&mut self, other: &Self)
        requires
            other.code_started == old(self).code_started,
        ensures
            *final(self) == *old(self),
    {
    }

    pub fn set_code_start(&mut self)
        ensures
            final(self).code_started,
            final(self).path == old(self).path,
    {
        self.code_started = true;
    }

    pub fn is_code_started(&self) -> (r: bool)
        ensures
            r == self.code_started,
    {
        self.code_started
    }
}

}
