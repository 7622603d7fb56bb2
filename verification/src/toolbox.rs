//! The tool executor as the runtime holds it: every call made through it is
//! recorded, and each is exactly one run of the executor.
use vstd::prelude::*;
use crate::types::{RuntimeError, ToolExecutor, ToolSpec};

verus! {

/// A tool executor together with the record of the calls made through it:
/// the tool name and the input text of each, in order.
pub struct ToolBox<T> {
    executor: T,
    calls: Ghost<Seq<(Seq<char>, Seq<char>)>>,
}

impl<T> ToolBox<T> {
    /// The executor held.
    pub closed spec fn executor(self) -> T {
        self.executor
    }

    /// The calls made so far: tool name and input text, in order.
    pub closed spec fn calls(self) -> Seq<(Seq<char>, Seq<char>)> {
        self.calls@
    }
}

impl<T: ToolExecutor> ToolBox<T> {
    /// Holds `executor`, with no call made yet.
    pub fn new(executor: T) -> (r: Self)
        ensures
            r.executor() == executor,
            r.calls() == Seq::<(Seq<char>, Seq<char>)>::empty(),
    {
        ToolBox { executor, calls: Ghost(Seq::empty()) }
    }

    /// Runs the tool `name` on `input`: one run of the executor, from the state
    /// it held to the state it holds after, recorded as the next call.
    pub fn call(&mut self, name: &str, input: &str) -> (r: Result<String, RuntimeError>)
        ensures
            final(self).calls() == old(self).calls().push((name@, input@)),
            exists|m: &mut T, n: &str, i: &str|
                n@ == name@ && i@ == input@ && mut_ref_current(m) == old(self).executor()
                    && mut_ref_future(m) == final(self).executor() && #[trigger] call_ensures(
                    T::execute,
                    (m, n, i),
                    r,
                ),
    {
        let r = self.executor.execute(name, input);
        self.calls = Ghost(self.calls@.push((name@, input@)));
        r
    }

    /// The specifications of the executor's tools.
    pub fn tool_specs(&self) -> (r: Vec<ToolSpec>)
        ensures
            call_ensures(T::tool_specs, (&self.executor(),), r),
    {
        self.executor.tool_specs()
    }
}

} // verus!
