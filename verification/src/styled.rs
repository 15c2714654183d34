//! Messages made of styled segments, written to the terminal by the caller.
use vstd::prelude::*;
use crate::text::{extend_str, string_of};

verus! {

/// How a segment of a message is shown.
#[derive(Clone, Copy, PartialEq, Eq, Debug, Structural)]
pub enum Style {
    Success,
    Warning,
    Error,
}

/// A message built from segments, each with an optional style.
#[derive(Debug)]
pub struct StyledStr {
    messages: Vec<(Option<Style>, String)>,
}

/// The segments of a message: style and text.
pub open spec fn segment_views(v: Seq<(Option<Style>, String)>) -> Seq<(Option<Style>, Seq<char>)> {
    v.map_values(|m: (Option<Style>, String)| (m.0, m.1@))
}

/// All segment texts one after another.
pub open spec fn concat_segments(segs: Seq<(Option<Style>, Seq<char>)>) -> Seq<char>
    decreases segs.len(),
{
    if segs.len() == 0 {
        Seq::<char>::empty()
    } else {
        concat_segments(segs.drop_last()) + segs.last().1
    }
}

impl View for StyledStr {
    type V = Seq<(Option<Style>, Seq<char>)>;

    closed spec fn view(&self) -> Seq<(Option<Style>, Seq<char>)> {
        segment_views(self.messages@)
    }
}

impl StyledStr {
    /// A message with no segments.
    pub fn new() -> (s: Self)
        ensures
            s@ == Seq::<(Option<Style>, Seq<char>)>::empty(),
    {
        let s = StyledStr { messages: Vec::new() };
        assert(s@ =~= Seq::<(Option<Style>, Seq<char>)>::empty());
        s
    }

    /// Adds a segment; empty text adds nothing.
    pub fn push_str(&mut self, style: Option<Style>, msg: String)
        ensures
            msg@.len() == 0 ==> final(self)@ == old(self)@,
            msg@.len() > 0 ==> final(self)@ == old(self)@.push((style, msg@)),
    {
        if msg.unicode_len() > 0 {
            let ghost before = self.messages@;
            self.messages.push((style, msg));
            assert(segment_views(self.messages@) =~= segment_views(before).push((style, self.messages@.last().1@)));
        }
    }

    /// The number of segments.
    pub fn segment_count(&self) -> (n: usize)
        ensures
            n == self@.len(),
    {
        self.messages.len()
    }

    /// The segment at position `i`.
    pub fn segment(&self, i: usize) -> (r: (Option<Style>, &String))
        requires
            i < self@.len(),
        ensures
            r.0 == self@[i as int].0,
            r.1@ == self@[i as int].1,
    {
        (self.messages[i].0, &self.messages[i].1)
    }

    /// The text printed for the message: its segments, then a line break.
    pub fn plain_text(&self) -> (s: String)
        ensures
            s@ == concat_segments(self@) + "\r\n"@,
    {
        let mut out: Vec<char> = Vec::new();
        let mut i: usize = 0;
        let ghost segs = self@;
        assert(segs.take(0) =~= Seq::<(Option<Style>, Seq<char>)>::empty());
        while i < self.messages.len()
            invariant
                segs == self@,
                segs.len() == self.messages@.len(),
                i <= self.messages.len(),
                out@ == concat_segments(segs.take(i as int)),
            decreases self.messages.len() - i,
        {
            assert(segs.take(i as int + 1).drop_last() =~= segs.take(i as int));
            assert(segs[i as int].1 == self.messages@[i as int].1@);
            extend_str(&mut out, self.messages[i].1.as_str());
            i = i + 1;
        }
        assert(segs.take(self.messages.len() as int) =~= segs);
        extend_str(&mut out, "\r\n");
        string_of(out.as_slice())
    }
}

} // verus!
