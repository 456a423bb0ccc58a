//! The chain of resolutions in progress, used to detect circular dependencies.
use crate::error::{label_views, RudiError};
use crate::key::{Key, KeyView};
use vstd::prelude::*;

verus! {

/// The abstract value of a frame: the key being resolved and its type label.
pub type FrameView = (KeyView, Seq<char>);

/// One resolution in progress.
#[derive(Debug)]
pub struct Frame {
    key: Key,
    type_label: &'static str,
}

impl View for Frame {
    type V = FrameView;

    open spec fn view(&self) -> FrameView {
        (self.spec_key()@, self.spec_label()@)
    }
}

impl Frame {
    pub closed spec fn spec_key(&self) -> Key {
        self.key
    }

    pub closed spec fn spec_label(&self) -> &'static str {
        self.type_label
    }

    /// A frame for resolving `key`, whose type is called `type_label`.
    pub fn new(key: Key, type_label: &'static str) -> (f: Frame)
        ensures
            f@ == (key@, type_label@),
    {
        Frame { key, type_label }
    }

    /// The key of the frame.
    pub fn key(&self) -> (k: &Key)
        ensures
            k@ == self@.0,
    {
        &self.key
    }

    /// The type label of the frame.
    pub fn type_label(&self) -> (l: &'static str)
        ensures
            l@ == self@.1,
    {
        self.type_label
    }

    /// A copy of the frame.
    pub fn duplicate(&self) -> (f: Frame)
        ensures
            f@ == self@,
    {
        Frame { key: self.key.duplicate(), type_label: self.type_label }
    }
}

/// Whether some frame of `frames` resolves `key`.
pub open spec fn chain_contains(frames: Seq<FrameView>, key: KeyView) -> bool {
    exists|i: int| 0 <= i < frames.len() && (#[trigger] frames[i]).0 == key
}

/// The type labels of `frames`, outermost first.
pub open spec fn chain_labels(frames: Seq<FrameView>) -> Seq<Seq<char>> {
    frames.map_values(|f: FrameView| f.1)
}

/// The resolutions in progress on one logical chain of resolution, outermost first.
#[derive(Debug)]
pub struct ResolutionStack {
    frames: Vec<Frame>,
}

impl View for ResolutionStack {
    type V = Seq<FrameView>;

    open spec fn view(&self) -> Seq<FrameView> {
        self.spec_frames().map_values(|f: Frame| f@)
    }
}

impl ResolutionStack {
    pub closed spec fn spec_frames(&self) -> Seq<Frame> {
        self.frames@
    }

    /// An empty chain: nothing is being resolved.
    pub fn new() -> (s: ResolutionStack)
        ensures
            s@ == Seq::<FrameView>::empty(),
    {
        let s = ResolutionStack { frames: Vec::new() };
        assert(s@ =~= Seq::<FrameView>::empty());
        s
    }

    /// The number of resolutions in progress.
    pub fn depth(&self) -> (n: usize)
        ensures
            n == self@.len(),
    {
        self.frames.len()
    }

    /// Whether `key` is being resolved somewhere on the chain.
    pub fn contains(&self, key: &Key) -> (r: bool)
        ensures
            r == chain_contains(self@, key@),
    {
        let n = self.frames.len();
        let mut i: usize = 0;
        while i < n
            invariant
                n == self.frames@.len(),
                0 <= i <= n,
                forall|j: int| 0 <= j < i ==> (#[trigger] self@[j]).0 != key@,
            decreases n - i,
        {
            if self.frames[i].key.same(key) {
                assert(self@[i as int].0 == key@);
                return true;
            }
            i = i + 1;
        }
        false
    }

    /// The labels of the chain followed by `type_label`: the chain reported when
    /// `type_label` is reached again.
    pub fn chain_with(&self, type_label: &'static str) -> (chain: Vec<&'static str>)
        ensures
            label_views(chain@) == chain_labels(self@).push(type_label@),
    {
        let n = self.frames.len();
        let mut chain: Vec<&'static str> = Vec::new();
        let mut i: usize = 0;
        while i < n
            invariant
                n == self.frames@.len(),
                0 <= i <= n,
                chain@.len() == i,
                forall|j: int| 0 <= j < i ==> (#[trigger] chain@[j])@ == self@[j].1,
            decreases n - i,
        {
            chain.push(self.frames[i].type_label);
            i = i + 1;
        }
        chain.push(type_label);
        assert(label_views(chain@) =~= chain_labels(self@).push(type_label@));
        chain
    }

    /// The innermost resolution in progress, if any.
    pub fn top(&self) -> (f: Option<&Frame>)
        ensures
            self@.len() == 0 ==> f is None,
            self@.len() > 0 ==> f is Some && f.unwrap()@ == self@.last(),
    {
        let n = self.frames.len();
        if n == 0 {
            None
        } else {
            Some(&self.frames[n - 1])
        }
    }

    /// Starts resolving `frame` on this chain.
    pub fn push(&mut self, frame: Frame)
        ensures
            final(self)@ == old(self)@.push(frame@),
    {
        self.frames.push(frame);
        assert(self@ =~= old(self)@.push(frame@));
    }

    /// Ends the innermost resolution in progress; an empty chain stays empty.
    pub fn leave(&mut self)
        ensures
            final(self)@ == if old(self)@.len() > 0 {
                old(self)@.drop_last()
            } else {
                old(self)@
            },
    {
        if self.frames.len() > 0 {
            let _ = self.frames.pop();
            assert(self@ =~= old(self)@.drop_last());
        }
    }
}

/// Checks that `key` may start resolving on `stack`: when it is already on the chain
/// the result is the `CircularDependency` error whose chain is the stack's labels
/// followed by `type_label`, and the stack is left as it was; otherwise the key is
/// pushed.
pub fn enter(stack: &mut ResolutionStack, key: Key, type_label: &'static str) -> (r: Result<(), RudiError>)
    ensures
        chain_contains(old(stack)@, key@) ==> {
            &&& final(stack)@ == old(stack)@
            &&& r matches Err(RudiError::CircularDependency { chain })
            &&& label_views(chain@) == chain_labels(old(stack)@).push(type_label@)
        },
        !chain_contains(old(stack)@, key@) ==> {
            &&& r is Ok
            &&& final(stack)@ == old(stack)@.push((key@, type_label@))
        },
{
    if stack.contains(&key) {
        let chain = stack.chain_with(type_label);
        return Err(RudiError::CircularDependency { chain });
    }
    stack.push(Frame::new(key, type_label));
    Ok(())
}

} // verus!
