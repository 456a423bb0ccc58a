//! Shutdown hooks: cleanup actions run in reverse order of registration.
use vstd::prelude::*;

verus! {

/// The shutdown hooks registered with a container, in registration order.
pub struct ShutdownHooks<H> {
    hooks: Vec<H>,
}

impl<H> View for ShutdownHooks<H> {
    type V = Seq<H>;

    open spec fn view(&self) -> Seq<H> {
        self.spec_hooks()
    }
}

impl<H> ShutdownHooks<H> {
    pub closed spec fn spec_hooks(&self) -> Seq<H> {
        self.hooks@
    }

    /// No hooks.
    pub fn new() -> (s: ShutdownHooks<H>)
        ensures
            s@ == Seq::<H>::empty(),
    {
        ShutdownHooks { hooks: Vec::new() }
    }

    /// The number of hooks waiting to run.
    pub fn len(&self) -> (n: usize)
        ensures
            n == self@.len(),
    {
        self.hooks.len()
    }

    /// Registers `hook` after every hook registered so far.
    pub fn register(&mut self, hook: H)
        ensures
            final(self)@ == old(self)@.push(hook),
    {
        self.hooks.push(hook);
    }

    /// Takes every registered hook out, in the order they must run: the reverse of
    /// their registration order (the last registered runs first). No hook is left
    /// behind, so a second shutdown runs nothing.
    pub fn take_for_shutdown(&mut self) -> (run: Vec<H>)
        ensures
            run@ == old(self)@.reverse(),
            final(self)@ == Seq::<H>::empty(),
    {
        let mut run: Vec<H> = Vec::new();
        let ghost orig = self.hooks@;
        while self.hooks.len() > 0
            invariant
                orig.len() == self.hooks@.len() + run@.len(),
                self.hooks@ == orig.take(self.hooks@.len() as int),
                run@ == orig.reverse().take(run@.len() as int),
            decreases self.hooks@.len(),
        {
            let ghost k = self.hooks@.len();
            let h = self.hooks.pop().unwrap();
            proof {
                assert(h == orig[k - 1]);
                assert(orig.reverse()[orig.len() - k] == orig[k - 1]);
            }
            run.push(h);
            assert(self.hooks@ =~= orig.take(self.hooks@.len() as int));
            assert(run@ =~= orig.reverse().take(run@.len() as int));
        }
        assert(run@ =~= orig.reverse());
        run
    }
}

} // verus!
