use vstd::prelude::*;

verus! {

/// The hand-off slot for the path supplied at process launch.
///
/// The shell fills it once at startup and the UI drains it with the first
/// `file_path` query; every later query sees the empty string. Owned state,
/// injected into the command layer at construction; the shell is responsible
/// for guarding it for exclusive access if it ever queries concurrently.
pub struct StartupPath {
    path: Option<String>,
}

impl View for StartupPath {
    type V = Option<Seq<char>>;

    closed spec fn view(&self) -> Option<Seq<char>> {
        match self.path {
            Some(p) => Some(p@),
            None => None,
        }
    }
}

impl StartupPath {
    /// Captures the launch argument, if any.
    pub fn new(initial: Option<String>) -> (r: StartupPath)
        ensures
            r@ == (match initial {
                Some(p) => Some(p@),
                None => None::<Seq<char>>,
            }),
    {
        StartupPath { path: initial }
    }

    /// Answers the UI's `file_path` query: the launch path on the first call,
    /// the empty string on every later one. Take-and-clear in one step.
    pub fn file_path(&mut self) -> (r: String)
        ensures
            final(self)@ is None,
            r@ == (match old(self)@ {
                Some(p) => p,
                None => Seq::<char>::empty(),
            }),
    {
        match self.path.take() {
            Some(p) => p,
            None => String::new(),
        }
    }
}

} // verus!
