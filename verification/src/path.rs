use vstd::prelude::*;

verus! {

/// A path being drawn, as an HTML canvas keeps it: finished subpaths and the subpath that is
/// being extended.
pub struct Path<P> {
    pub subpaths: Vec<Vec<P>>,
    pub current: Vec<P>,
}

/// The views of a list of point lists.
pub open spec fn point_lists<P>(v: Seq<Vec<P>>) -> Seq<Seq<P>> {
    v.map_values(|x: Vec<P>| x@)
}

/// The subpaths once the current one is finished: it joins them unless it is empty.
pub open spec fn finished<P>(subpaths: Seq<Seq<P>>, current: Seq<P>) -> Seq<Seq<P>> {
    if current.len() > 0 {
        subpaths.push(current)
    } else {
        subpaths
    }
}

/// The pairs of consecutive points of one subpath.
pub open spec fn segments_of<P>(sub: Seq<P>) -> Seq<(P, P)>
    decreases sub.len(),
{
    if sub.len() < 2 {
        Seq::empty()
    } else {
        segments_of(sub.drop_last()) + seq![(sub[sub.len() - 2], sub.last())]
    }
}

/// The segments of every subpath, subpath after subpath.
pub open spec fn all_segments<P>(subs: Seq<Seq<P>>) -> Seq<(P, P)>
    decreases subs.len(),
{
    if subs.len() == 0 {
        Seq::empty()
    } else {
        all_segments(subs.drop_last()) + segments_of(subs.last())
    }
}

/// All points of all subpaths, in order.
pub open spec fn all_points<P>(subs: Seq<Seq<P>>) -> Seq<P>
    decreases subs.len(),
{
    if subs.len() == 0 {
        Seq::empty()
    } else {
        all_points(subs.drop_last()) + subs.last()
    }
}

impl<P: Copy> Path<P> {
    /// The finished subpaths, as values.
    pub open spec fn subs(&self) -> Seq<Seq<P>> {
        point_lists(self.subpaths@)
    }

    /// An empty path.
    pub fn new() -> (r: Self)
        ensures
            r.subs() == Seq::<Seq<P>>::empty(),
            r.current@ == Seq::<P>::empty(),
    {
        let r = Path { subpaths: Vec::new(), current: Vec::new() };
        assert(r.subs() =~= Seq::<Seq<P>>::empty());
        r
    }

    /// Forgets the whole path.
    pub fn begin_path(&mut self)
        ensures
            final(self).subs() == Seq::<Seq<P>>::empty(),
            final(self).current@ == Seq::<P>::empty(),
    {
        self.subpaths.clear();
        self.current.clear();
        assert(self.subs() =~= Seq::<Seq<P>>::empty());
    }

    /// Moves the current subpath, unless it is empty, to the finished ones.
    pub fn finish_current_subpath(&mut self)
        ensures
            final(self).subs() == finished(old(self).subs(), old(self).current@),
            final(self).current@ == Seq::<P>::empty(),
    {
        if self.current.len() > 0 {
            let mut cur = Vec::new();
            std::mem::swap(&mut cur, &mut self.current);
            self.subpaths.push(cur);
            assert(self.subs() =~= old(self).subs().push(old(self).current@));
        }
    }

    /// Starts a new subpath at `p`; the current one, unless empty, is finished first.
    pub fn move_to(&mut self, p: P)
        ensures
            final(self).subs() == finished(old(self).subs(), old(self).current@),
            final(self).current@ == seq![p],
    {
        self.finish_current_subpath();
        self.current.push(p);
        assert(self.current@ =~= seq![p]);
    }

    /// Extends the current subpath to `p`.
    pub fn line_to(&mut self, p: P)
        ensures
            final(self).subs() == old(self).subs(),
            final(self).current@ == old(self).current@.push(p),
    {
        self.current.push(p);
    }

    /// Extends the current subpath by `points`, in order.
    pub fn extend(&mut self, points: &Vec<P>)
        ensures
            final(self).subs() == old(self).subs(),
            final(self).current@ == old(self).current@ + points@,
    {
        let n = points.len();
        for i in 0..n
            invariant
                n == points@.len(),
                self.subs() == old(self).subs(),
                self.current@ == old(self).current@ + points@.take(i as int),
        {
            self.current.push(points[i]);
            assert(points@.take(i + 1) =~= points@.take(i as int).push(points@[i as int]));
        }
        assert(points@.take(n as int) =~= points@);
    }

    /// Closes the current subpath back to its first point, when it has at least two points.
    pub fn close_path(&mut self)
        ensures
            final(self).subs() == old(self).subs(),
            final(self).current@ == if old(self).current@.len() >= 2 {
                old(self).current@.push(old(self).current@[0])
            } else {
                old(self).current@
            },
    {
        if self.current.len() >= 2 {
            let first = self.current[0];
            self.current.push(first);
        }
    }

    /// Finishes the current subpath, empties the path and returns the line segments of all
    /// its subpaths, to be stroked.
    pub fn take_segments(&mut self) -> (r: Vec<(P, P)>)
        ensures
            r@ == all_segments(finished(old(self).subs(), old(self).current@)),
            final(self).subs() == Seq::<Seq<P>>::empty(),
            final(self).current@ == Seq::<P>::empty(),
    {
        self.finish_current_subpath();
        let mut subs: Vec<Vec<P>> = Vec::new();
        std::mem::swap(&mut subs, &mut self.subpaths);
        assert(self.subs() =~= Seq::<Seq<P>>::empty());
        let ghost all = point_lists(subs@);
        let mut r: Vec<(P, P)> = Vec::new();
        let n = subs.len();
        for k in 0..n
            invariant
                n == subs@.len(),
                all == point_lists(subs@),
                r@ == all_segments(all.take(k as int)),
        {
            let sub = &subs[k];
            let m = sub.len();
            let ghost start = r@;
            let mut i: usize = 0;
            if m == 0 {
                assert(segments_of(sub@) =~= Seq::<(P, P)>::empty());
            }
            while m > 0 && i + 1 < m
                invariant
                    m == sub@.len(),
                    m == 0 ==> r@ == start,
                    m > 0 ==> i + 1 <= m,
                    m > 0 ==> r@ == start + segments_of(sub@.take((i + 1) as int)),
                decreases m - i,
            {
                r.push((sub[i], sub[i + 1]));
                let ghost t = sub@.take(i + 2);
                assert(t.drop_last() =~= sub@.take(i + 1));
                assert(r@ =~= start + segments_of(t));
                i = i + 1;
            }
            proof {
                if m > 0 {
                    assert(sub@.take(m as int) =~= sub@);
                } else {
                    assert(r@ =~= start + segments_of(sub@));
                }
                assert(all.take(k + 1).drop_last() =~= all.take(k as int));
                assert(all.take(k + 1).last() == sub@);
            }
        }
        assert(all.take(n as int) =~= all);
        r
    }

    /// Finishes the current subpath, empties the path and returns all its points, in
    /// order, to be filled.
    pub fn take_points(&mut self) -> (r: Vec<P>)
        ensures
            r@ == all_points(finished(old(self).subs(), old(self).current@)),
            final(self).subs() == Seq::<Seq<P>>::empty(),
            final(self).current@ == Seq::<P>::empty(),
    {
        self.finish_current_subpath();
        let mut subs: Vec<Vec<P>> = Vec::new();
        std::mem::swap(&mut subs, &mut self.subpaths);
        assert(self.subs() =~= Seq::<Seq<P>>::empty());
        let ghost all = point_lists(subs@);
        let mut r: Vec<P> = Vec::new();
        let n = subs.len();
        for k in 0..n
            invariant
                n == subs@.len(),
                all == point_lists(subs@),
                r@ == all_points(all.take(k as int)),
        {
            let sub = &subs[k];
            let m = sub.len();
            let ghost start = r@;
            for i in 0..m
                invariant
                    m == sub@.len(),
                    r@ == start + sub@.take(i as int),
            {
                r.push(sub[i]);
                assert(sub@.take(i + 1) =~= sub@.take(i as int).push(sub@[i as int]));
            }
            proof {
                assert(sub@.take(m as int) =~= sub@);
                assert(all.take(k + 1).drop_last() =~= all.take(k as int));
                assert(all.take(k + 1).last() == sub@);
            }
        }
        assert(all.take(n as int) =~= all);
        r
    }
}

/// Drops the copy of the first point that closing an outline put at its end, before it is
/// filled: when `ends_equal` (the first and last points are the same) and more than three
/// points remain. Otherwise the points stay as they are.
pub fn drop_closing_point<P>(points: &mut Vec<P>, ends_equal: bool)
    ensures
        final(points)@ == if ends_equal && old(points)@.len() > 3 {
            old(points)@.drop_last()
        } else {
            old(points)@
        },
{
    if ends_equal && points.len() > 3 {
        points.pop();
    }
}

} // verus!
