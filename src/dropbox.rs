use vstd::prelude::*;

verus! {

/// The part of `p` after its last `/`; all of `p` when it holds none.
pub open spec fn last_segment(p: Seq<char>) -> Seq<char>
    decreases p.len(),
{
    if p.len() == 0 {
        p
    } else if p.last() == '/' {
        Seq::empty()
    } else {
        last_segment(p.drop_last()).push(p.last())
    }
}

/// The sync client's folder, looked up once and then kept.
pub struct DropBox {
    /// The folder's path; empty while it is not known.
    pub path: String,
}

impl DropBox {
    /// A handle whose folder is not known yet.
    pub fn new() -> (r: Self)
        ensures
            r.path@ == Seq::<char>::empty(),
    {
        DropBox { path: String::new() }
    }

    /// The folder's path. While it is not known, `discover` is called to
    /// find it and its answer is kept; once it is known, `discover` is not
    /// called.
    pub fn folder<F: FnOnce() -> String>(&mut self, discover: F) -> (r: String)
        requires
            old(self).path@.len() == 0 ==> discover.requires(()),
        ensures
            old(self).path@.len() != 0 ==> final(self).path@ == old(self).path@,
            old(self).path@.len() == 0 ==> discover.ensures((), final(self).path),
            r@ == final(self).path@,
    {
        if self.path.as_str().is_empty() {
            self.path = discover();
        }
        self.path.clone()
    }

    /// The last component of the folder's path.
    pub fn name(&self) -> (r: String)
        ensures
            r@ == last_segment(self.path@),
    {
        let p = self.path.as_str();
        let n = p.unicode_len();
        let mut j = n;
        assert(p@.take(n as int) =~= p@);
        assert(p@.subrange(n as int, n as int) =~= Seq::<char>::empty());
        assert(last_segment(p@) + Seq::<char>::empty() =~= last_segment(p@));
        while j > 0 && p.get_char(j - 1) != '/'
            invariant
                j <= n,
                n == p@.len(),
                last_segment(p@) == last_segment(p@.take(j as int)) + p@.subrange(j as int, n as int),
            decreases j,
        {
            let ghost t = p@.take(j as int);
            assert(t.drop_last() =~= p@.take(j - 1));
            assert(t.last() == p@[j - 1]);
            assert(p@.subrange(j - 1, n as int) =~= seq![p@[j - 1]] + p@.subrange(j as int, n as int));
            assert(last_segment(t) == last_segment(p@.take(j - 1)).push(p@[j - 1]));
            assert(last_segment(p@.take(j - 1)).push(p@[j - 1]) + p@.subrange(j as int, n as int)
                =~= last_segment(p@.take(j - 1)) + p@.subrange(j - 1, n as int));
            j -= 1;
        }
        proof {
            let t = p@.take(j as int);
            if j > 0 {
                assert(t.last() == '/');
            }
            assert(last_segment(t) =~= Seq::<char>::empty());
            assert(last_segment(p@) =~= p@.subrange(j as int, n as int));
        }
        p.substring_char(j, n).to_owned()
    }
}

} // verus!
