//! The call stack of in-progress evaluations, with the current approximation
//! of each one's output set.
use vstd::prelude::*;

verus! {

/// A call stack as a sequence of (judgment, input, approximation) frames,
/// innermost last.
pub type Frames = Seq<(usize, i64, Seq<i64>)>;

/// The approximation of the innermost frame, among the first `n`, for
/// `judgment` on `input`.
pub open spec fn find_frame(s: Frames, judgment: usize, input: i64, n: int) -> Option<Seq<i64>>
    decreases n,
{
    if n <= 0 {
        None
    } else if s[n - 1].0 == judgment && s[n - 1].1 == input {
        Some(s[n - 1].2)
    } else {
        find_frame(s, judgment, input, n - 1)
    }
}

/// The approximation recorded for `judgment` on `input`, if that evaluation is
/// in progress.
pub open spec fn lookup(s: Frames, judgment: usize, input: i64) -> Option<Seq<i64>> {
    find_frame(s, judgment, input, s.len() as int)
}

/// Every recorded approximation is free of duplicates.
pub open spec fn frames_wf(s: Frames) -> bool {
    forall|i: int| 0 <= i < s.len() ==> (#[trigger] s[i]).2.no_duplicates()
}

/// A recorded approximation of a well-formed stack has no duplicates.
pub proof fn lemma_find_frame_wf(s: Frames, judgment: usize, input: i64, n: int)
    requires
        frames_wf(s),
        n <= s.len(),
    ensures
        find_frame(s, judgment, input, n) matches Some(a) ==> a.no_duplicates(),
    decreases n,
{
    if n > 0 {
        assert(s[n - 1].2.no_duplicates());
        lemma_find_frame_wf(s, judgment, input, n - 1);
    }
}

struct Frame {
    judgment: usize,
    input: i64,
    approx: Vec<i64>,
}

/// The evaluations in progress in the current chain of judgment calls.
pub struct CallStack {
    frames: Vec<Frame>,
}

impl View for CallStack {
    type V = Frames;

    closed spec fn view(&self) -> Frames {
        self.frames@.map_values(|f: Frame| (f.judgment, f.input, f.approx@))
    }
}

/// A copy of `v`.
pub fn copy_values(v: &Vec<i64>) -> (r: Vec<i64>)
    ensures
        r@ == v@,
{
    let mut r: Vec<i64> = Vec::new();
    let mut i: usize = 0;
    while i < v.len()
        invariant
            0 <= i <= v@.len(),
            r@ == v@.subrange(0, i as int),
        decreases v@.len() - i,
    {
        r.push(v[i]);
        i = i + 1;
    }
    r
}

impl CallStack {
    /// An empty stack.
    pub fn new() -> (r: CallStack)
        ensures
            r@ == Frames::empty(),
    {
        let r = CallStack { frames: Vec::new() };
        assert(r@ =~= Frames::empty());
        r
    }

    /// Enters the evaluation of `judgment` on `input`, with an empty
    /// approximation.
    pub fn push(&mut self, judgment: usize, input: i64)
        ensures
            final(self)@ == old(self)@.push((judgment, input, Seq::<i64>::empty())),
    {
        let f = Frame { judgment, input, approx: Vec::new() };
        self.frames.push(f);
        assert(self@ =~= old(self)@.push((judgment, input, Seq::<i64>::empty())));
    }

    /// Leaves the innermost evaluation.
    pub fn pop(&mut self)
        requires
            old(self)@.len() > 0,
        ensures
            final(self)@ == old(self)@.drop_last(),
    {
        let _ = self.frames.pop();
        assert(self@ =~= old(self)@.drop_last());
    }

    /// Replaces the approximation of the innermost evaluation.
    pub fn set_approximation(&mut self, approx: Vec<i64>)
        requires
            old(self)@.len() > 0,
        ensures
            final(self)@ == old(self)@.drop_last().push(
                (old(self)@.last().0, old(self)@.last().1, approx@),
            ),
    {
        let f = self.frames.pop().unwrap();
        assert(self@ =~= old(self)@.drop_last());
        let g = Frame { judgment: f.judgment, input: f.input, approx };
        self.frames.push(g);
        assert(self@ =~= old(self)@.drop_last().push(
            (old(self)@.last().0, old(self)@.last().1, approx@),
        ));
    }

    /// The approximation of the innermost evaluation.
    pub fn top_approximation(&self) -> (r: Vec<i64>)
        requires
            self@.len() > 0,
        ensures
            r@ == self@.last().2,
    {
        let n = self.frames.len();
        assert(self@[n - 1] == (self.frames@[n - 1].judgment, self.frames@[n - 1].input, self.frames@[n - 1].approx@));
        copy_values(&self.frames[n - 1].approx)
    }

    /// The approximation recorded for `judgment` on `input`, if that
    /// evaluation is in progress.
    pub fn lookup(&self, judgment: usize, input: i64) -> (r: Option<Vec<i64>>)
        ensures
            match r {
                Some(v) => lookup(self@, judgment, input) == Some(v@),
                None => lookup(self@, judgment, input) is None,
            },
    {
        let mut n: usize = self.frames.len();
        while n > 0
            invariant
                0 <= n <= self@.len(),
                self@.len() == self.frames@.len(),
                find_frame(self@, judgment, input, n as int) == lookup(self@, judgment, input),
            decreases n,
        {
            let f = &self.frames[n - 1];
            assert(self@[n - 1] == (f.judgment, f.input, f.approx@));
            if f.judgment == judgment && f.input == input {
                return Some(copy_values(&f.approx));
            }
            n = n - 1;
        }
        None
    }
}

} // verus!
