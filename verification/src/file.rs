//! A file that the server can hand out.

use vstd::prelude::*;

verus! {

/// A servable file: where it lies and how many bytes it holds.
pub struct File {
    pub path: String,
    pub size: u64,
}

impl View for File {
    type V = (Seq<char>, u64);

    open spec fn view(&self) -> (Seq<char>, u64) {
        (self.path@, self.size)
    }
}

/// The part of `s` after its last `/`; all of `s` when it holds none.
pub open spec fn last_segment(s: Seq<char>) -> Seq<char>
    decreases s.len(),
{
    if s.len() == 0 {
        s
    } else if s.last() == '/' {
        Seq::empty()
    } else {
        last_segment(s.drop_last()).push(s.last())
    }
}

impl File {
    /// A file at `path` of `size` bytes.
    pub fn new(path: String, size: u64) -> (r: File)
        ensures
            r.path == path,
            r.size == size,
    {
        File { path, size }
    }

    /// The same file.
    pub fn copy(&self) -> (r: File)
        ensures
            r == *self,
    {
        File { path: self.path.clone(), size: self.size }
    }

    /// Whether both describe the same file: same path and same size.
    pub fn is_equal(&self, file: &File) -> (r: bool)
        ensures
            r == (self.path@ == file.path@ && self.size == file.size),
    {
        if !crate::path_map::str_equal(self.path.as_str(), file.path.as_str()) {
            return false;
        }
        if self.size != file.size {
            return false;
        }
        true
    }

    /// The last segment of the path, after its last `/`.
    pub fn name(&self) -> (r: String)
        ensures
            r@ == last_segment(self.path@),
    {
        let v = crate::text::chars_of(self.path.as_str());
        let mut start: usize = v.len();
        assert(v@.take(start as int) =~= v@);
        assert(v@.skip(start as int) =~= Seq::<char>::empty());
        while start > 0 && v[start - 1] != '/'
            invariant
                start <= v.len(),
                last_segment(v@) == last_segment(v@.take(start as int)) + v@.skip(start as int),
            decreases start,
        {
            let ghost t = v@.take(start as int);
            assert(t.drop_last() =~= v@.take(start - 1));
            assert(v@.skip(start - 1) =~= seq![t.last()] + v@.skip(start as int));
            assert(last_segment(t) == last_segment(t.drop_last()).push(t.last()));
            assert(last_segment(t.drop_last()).push(t.last()) + v@.skip(start as int) =~= last_segment(t.drop_last()) + v@.skip(start - 1));
            start = start - 1;
        }
        proof {
            let t = v@.take(start as int);
            if start > 0 {
                assert(t.last() == '/');
            } else {
                assert(t.len() == 0);
            }
            assert(last_segment(t) =~= Seq::<char>::empty());
            assert(v@.take(v@.len() as int) =~= v@);
        }
        let mut out: Vec<char> = Vec::new();
        let mut i = start;
        while i < v.len()
            invariant
                start <= i <= v.len(),
                out@ =~= v@.subrange(start as int, i as int),
            decreases v.len() - i,
        {
            out.push(v[i]);
            i = i + 1;
        }
        assert(out@ =~= v@.skip(start as int));
        crate::text::string_of(out.as_slice())
    }
}

} // verus!
