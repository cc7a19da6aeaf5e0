use vstd::prelude::*;

use crate::text::{
    join_exec, join_with, lemma_join_split, split_exec, split_on, trim_char, trim_char_exec,
    views,
};

verus! {

/// A navigation path split into segments, with a cursor on the segment being shown.
pub struct Router {
    segments: Vec<String>,
    index: u8,
}

impl Router {
    /// The segments of the path.
    pub closed spec fn spec_segments(&self) -> Seq<Seq<char>> {
        views(self.segments@)
    }

    /// The position of the cursor.
    pub closed spec fn spec_index(&self) -> u8 {
        self.index
    }

    /// The segments of `path`: the pieces between the `/` once the leading and trailing `/`
    /// are removed.
    fn parse_segments(path: &str) -> (res: Vec<String>)
        ensures
            views(res@) == split_on(trim_char(path@, '/'), '/'),
    {
        split_exec(trim_char_exec(path, '/'), '/')
    }

    /// A router on the segments of `path`, with the cursor on the first one.
    pub fn new(path: &str) -> (res: Self)
        ensures
            res.spec_segments() == split_on(trim_char(path@, '/'), '/'),
            res.spec_index() == 0,
    {
        Router { segments: Self::parse_segments(path), index: 0 }
    }

    /// The path: `/` followed by the segments joined with `/`.
    pub fn path(&self) -> (res: String)
        ensures
            res@ == seq!['/'] + join_with(self.spec_segments(), seq!['/']),
    {
        let mut res: String = String::new();
        let sep: &str = "/";
        proof {
            reveal_strlit("/");
            assert(sep@ =~= seq!['/']);
        }
        res.append(sep);
        let joined: String = join_exec(&self.segments, sep);
        res.append(joined.as_str());
        res
    }

    /// The position of the cursor.
    pub fn index(&self) -> (res: u8)
        ensures
            res == self.spec_index(),
    {
        self.index
    }

    /// The segment under the cursor, if the cursor is on a segment.
    pub fn current(&self) -> (res: Option<&str>)
        ensures
            self.spec_index() < self.spec_segments().len() ==> res is Some && res->0@
                == self.spec_segments()[self.spec_index() as int],
            self.spec_index() >= self.spec_segments().len() ==> res is None,
    {
        let i: usize = self.index as usize;
        if i < self.segments.len() {
            Some(self.segments[i].as_str())
        } else {
            None
        }
    }

    /// Moves the cursor one segment deeper.
    pub fn enter(&mut self)
        requires
            old(self).spec_index() < 255,
        ensures
            final(self).spec_index() == old(self).spec_index() + 1,
            final(self).spec_segments() == old(self).spec_segments(),
    {
        self.index = self.index + 1;
    }

    /// Moves the cursor one segment back, unless it is on the first one.
    pub fn exit(&mut self)
        ensures
            final(self).spec_index() == if old(self).spec_index() > 0 {
                (old(self).spec_index() - 1) as u8
            } else {
                0
            },
            final(self).spec_segments() == old(self).spec_segments(),
    {
        if self.index > 0 {
            self.index = self.index - 1;
        }
    }

    /// Replaces the segments after the cursor with `segment`; the cursor does not move.
    pub fn push(&mut self, segment: &str)
        ensures
            final(self).spec_index() == old(self).spec_index(),
            final(self).spec_segments() == old(self).spec_segments().take(
                if old(self).spec_index() + 1 < old(self).spec_segments().len() {
                    old(self).spec_index() + 1
                } else {
                    old(self).spec_segments().len() as int
                },
            ).push(segment@),
    {
        let ghost before = views(self.segments@);
        self.segments.truncate(self.index as usize + 1);
        let ghost kept = views(self.segments@);
        assert(kept =~= before.take(
            if self.index + 1 < before.len() {
                self.index + 1
            } else {
                before.len() as int
            },
        ));
        self.segments.push(to_owned(segment));
        assert(views(self.segments@) =~= kept.push(segment@));
    }
}

fn to_owned(s: &str) -> (res: String)
    ensures
        res@ == s@,
{
    crate::text::to_owned_string(s)
}

/// The path of a router built from `p` is `/` followed by `p` without its leading and
/// trailing `/`.
pub proof fn lemma_path_of_new(p: Seq<char>, r: Router)
    requires
        r.spec_segments() == split_on(trim_char(p, '/'), '/'),
    ensures
        seq!['/'] + join_with(r.spec_segments(), seq!['/']) == seq!['/'] + trim_char(p, '/'),
{
    lemma_join_split(trim_char(p, '/'), '/');
}

/// Moving one segment deeper then one back returns the cursor to where it was.
pub proof fn lemma_enter_exit(before: Router, entered: Router, exited: Router)
    requires
        before.spec_index() < 255,
        entered.spec_index() == before.spec_index() + 1,
        exited.spec_index() == if entered.spec_index() > 0 {
            (entered.spec_index() - 1) as u8
        } else {
            0
        },
    ensures
        exited.spec_index() == before.spec_index(),
{
}

/// After pushing a segment while the cursor is on a segment, moving one segment deeper puts
/// the cursor on the pushed segment.
pub proof fn lemma_push_then_enter(before: Router, pushed: Router, entered: Router, segment: Seq<char>)
    requires
        before.spec_index() < before.spec_segments().len(),
        before.spec_index() < 255,
        pushed.spec_index() == before.spec_index(),
        pushed.spec_segments() == before.spec_segments().take(before.spec_index() + 1).push(segment),
        entered.spec_index() == pushed.spec_index() + 1,
        entered.spec_segments() == pushed.spec_segments(),
    ensures
        entered.spec_index() < entered.spec_segments().len(),
        entered.spec_segments()[entered.spec_index() as int] == segment,
{
}

} // verus!
