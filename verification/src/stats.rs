use vstd::prelude::*;

verus! {

/// Diagnostic histograms over the measured text: how often each snippet
/// and each pixel width came back from the shaper.  The accumulator is
/// purely additive, never affects the rendered output, and is reported
/// once at the end of a run.
pub struct TextStats {
    pub widths: Vec<(u32, u32)>,
    pub texts: Vec<(String, u32)>,
}

/// A count steps up by one and saturates at its ceiling.
pub open spec fn spec_bump(c: u32) -> u32 {
    if c == 0xFFFFFFFFu32 {
        c
    } else {
        (c + 1) as u32
    }
}

impl TextStats {
    pub fn new() -> (r: Self)
        ensures
            r.widths@ == Seq::<(u32, u32)>::empty(),
            r.texts@ == Seq::<(String, u32)>::empty(),
    {
        let r = Self { widths: Vec::new(), texts: Vec::new() };
        proof {
            assert(r.widths@ =~= Seq::<(u32, u32)>::empty());
            assert(r.texts@ =~= Seq::<(String, u32)>::empty());
        }
        r
    }

    /// Counts one more cluster of the given pixel width: the first entry
    /// with that key steps up, or a fresh entry is appended.
    pub fn record_width(&mut self, width: u32)
        ensures
            final(self).texts == old(self).texts,
            (forall|j: int|
                0 <= j < old(self).widths@.len() ==> (#[trigger] old(self).widths@[j]).0 != width)
                ==> final(self).widths@ == old(self).widths@.push((width, 1u32)),
            (exists|j: int|
                0 <= j < old(self).widths@.len() && (#[trigger] old(self).widths@[j]).0 == width)
                ==> exists|i: int|
                {
                    &&& 0 <= i < old(self).widths@.len()
                    &&& (#[trigger] old(self).widths@[i]).0 == width
                    &&& forall|j: int| 0 <= j < i ==> old(self).widths@[j].0 != width
                    &&& final(self).widths@ == old(self).widths@.update(
                        i,
                        (width, spec_bump(old(self).widths@[i].1)),
                    )
                },
    {
        let mut i: usize = 0;
        while i < self.widths.len()
            invariant
                self.widths@ == old(self).widths@,
                self.texts == old(self).texts,
                0 <= i <= self.widths@.len(),
                forall|j: int| 0 <= j < i ==> (#[trigger] self.widths@[j]).0 != width,
            decreases self.widths@.len() - i,
        {
            if self.widths[i].0 == width {
                let c = self.widths[i].1;
                let c2: u32 = if c == 0xFFFFFFFF {
                    c
                } else {
                    c + 1
                };
                self.widths.set(i, (width, c2));
                return ;
            }
            i = i + 1;
        }
        self.widths.push((width, 1));
    }

    /// Counts one more occurrence of the given snippet, matching by
    /// content: the first entry with that text steps up, or a fresh
    /// entry is appended.
    pub fn record_text(&mut self, text: String)
        ensures
            final(self).widths == old(self).widths,
            (forall|j: int|
                0 <= j < old(self).texts@.len() ==> (#[trigger] old(self).texts@[j]).0@ != text@)
                ==> final(self).texts@ == old(self).texts@.push((text, 1u32)),
            (exists|j: int|
                0 <= j < old(self).texts@.len() && (#[trigger] old(self).texts@[j]).0@ == text@)
                ==> exists|i: int|
                {
                    &&& 0 <= i < old(self).texts@.len()
                    &&& (#[trigger] old(self).texts@[i]).0@ == text@
                    &&& forall|j: int| 0 <= j < i ==> old(self).texts@[j].0@ != text@
                    &&& final(self).texts@ == old(self).texts@.update(
                        i,
                        (old(self).texts@[i].0, spec_bump(old(self).texts@[i].1)),
                    )
                },
    {
        let mut i: usize = 0;
        while i < self.texts.len()
            invariant
                self.texts@ == old(self).texts@,
                self.widths == old(self).widths,
                0 <= i <= self.texts@.len(),
                forall|j: int| 0 <= j < i ==> (#[trigger] self.texts@[j]).0@ != text@,
            decreases self.texts@.len() - i,
        {
            if self.texts[i].0 == text {
                let c = self.texts[i].1;
                let c2: u32 = if c == 0xFFFFFFFF {
                    c
                } else {
                    c + 1
                };
                let key = self.texts[i].0.clone();
                self.texts.set(i, (key, c2));
                return ;
            }
            i = i + 1;
        }
        self.texts.push((text, 1));
    }
}

} // verus!
