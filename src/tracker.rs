use vstd::prelude::*;

verus! {

/// The model of a failure record: the farthest failure position (-1 where none was
/// recorded) and the labels expected there, in order of first appearance.
pub struct TrackV {
    pub pos: int,
    pub labels: Seq<Seq<char>>,
}

pub open spec fn no_track() -> TrackV {
    TrackV { pos: -1, labels: seq![] }
}

pub open spec fn single_track(pos: int, label: Seq<char>) -> TrackV {
    TrackV { pos, labels: seq![label] }
}

pub open spec fn add_label(s: Seq<Seq<char>>, l: Seq<char>) -> Seq<Seq<char>> {
    if s.contains(l) {
        s
    } else {
        s.push(l)
    }
}

/// `a` followed by the first `k` labels of `b` that it lacks.
pub open spec fn union_upto(a: Seq<Seq<char>>, b: Seq<Seq<char>>, k: nat) -> Seq<Seq<char>>
    decreases k,
{
    if k == 0 || k > b.len() {
        a
    } else {
        add_label(union_upto(a, b, (k - 1) as nat), b[k - 1])
    }
}

pub open spec fn label_union(a: Seq<Seq<char>>, b: Seq<Seq<char>>) -> Seq<Seq<char>> {
    union_upto(a, b, b.len())
}

/// The farther record wins; at equal positions the label sets are united.
pub open spec fn merge(a: TrackV, b: TrackV) -> TrackV {
    if a.pos > b.pos {
        a
    } else if b.pos > a.pos {
        b
    } else {
        TrackV { pos: a.pos, labels: label_union(a.labels, b.labels) }
    }
}

pub open spec fn label_views(v: Seq<String>) -> Seq<Seq<char>> {
    v.map_values(|s: String| s@)
}

/// The farthest failure position reached and the labels expected there.
#[derive(Debug)]
pub struct Tracker {
    farthest: Option<usize>,
    labels: Vec<String>,
}

impl View for Tracker {
    type V = TrackV;

    closed spec fn view(&self) -> TrackV {
        TrackV {
            pos: match self.farthest {
                Some(p) => p as int,
                None => -1,
            },
            labels: label_views(self.labels@),
        }
    }
}

impl Tracker {
    pub fn empty() -> (r: Tracker)
        ensures
            r@ == no_track(),
    {
        let r = Tracker { farthest: None, labels: Vec::new() };
        assert(r@.labels =~= seq![]);
        r
    }

    pub fn single(pos: usize, label: String) -> (r: Tracker)
        ensures
            r@ == single_track(pos as int, label@),
    {
        let mut labels = Vec::new();
        labels.push(label);
        let r = Tracker { farthest: Some(pos), labels };
        assert(r@.labels =~= seq![label@]);
        r
    }

    /// The farthest failure position, if any failure was recorded.
    pub fn farthest(&self) -> (r: Option<usize>)
        ensures
            r is None <==> self@.pos == -1,
            r matches Some(p) ==> p == self@.pos,
    {
        self.farthest
    }

    pub fn labels(&self) -> (r: Vec<String>)
        ensures
            label_views(r@) == self@.labels,
    {
        let mut out: Vec<String> = Vec::new();
        let mut i: usize = 0;
        while i < self.labels.len()
            invariant
                i <= self.labels.len(),
                label_views(out@) == self@.labels.subrange(0, i as int),
            decreases self.labels.len() - i,
        {
            let c = self.labels[i].clone();
            assert(c@ == self.labels@[i as int]@);
            let ghost o = out@;
            out.push(c);
            assert(out@ == o.push(c));
            assert(label_views(o) == self@.labels.subrange(0, i as int));
            assert(label_views(out@) =~= label_views(o).push(c@));
            assert(self@.labels[i as int] == c@);
            assert(label_views(out@) =~= self@.labels.subrange(0, i + 1));
            i = i + 1;
        }
        assert(self@.labels.subrange(0, i as int) =~= self@.labels);
        out
    }

    /// Whether `label` is among the labels expected at the farthest position.
    pub fn expects(&self, label: &String) -> (r: bool)
        ensures
            r == self@.labels.contains(label@),
    {
        let mut j: usize = 0;
        while j < self.labels.len()
            invariant
                j <= self.labels.len(),
                forall|k: int| 0 <= k < j ==> #[trigger] self@.labels[k] != label@,
            decreases self.labels.len() - j,
        {
            if self.labels[j] == *label {
                assert(self@.labels[j as int] == label@);
                return true;
            }
            j = j + 1;
        }
        false
    }

    pub fn copy(&self) -> (r: Tracker)
        ensures
            r@ == self@,
    {
        Tracker { farthest: self.farthest, labels: self.labels() }
    }

    fn add(&mut self, label: String)
        ensures
            final(self).farthest == old(self).farthest,
            final(self)@.labels == add_label(old(self)@.labels, label@),
    {
        let ghost s = self@.labels;
        let mut j: usize = 0;
        while j < self.labels.len()
            invariant
                j <= self.labels.len(),
                s == self@.labels,
                forall|k: int| 0 <= k < j ==> #[trigger] s[k] != label@,
            decreases self.labels.len() - j,
        {
            if self.labels[j] == label {
                assert(s[j as int] == label@);
                return;
            }
            j = j + 1;
        }
        self.labels.push(label);
        assert(self@.labels =~= s.push(label@));
    }

    /// Unites two records into the one that `merge` describes.
    pub fn merge(a: Tracker, b: Tracker) -> (r: Tracker)
        ensures
            r@ == merge(a@, b@),
    {
        match (a.farthest, b.farthest) {
            (Some(pa), Some(pb)) => {
                if pa > pb {
                    return a;
                } else if pb > pa {
                    return b;
                }
            },
            (Some(_), None) => {
                return a;
            },
            (None, Some(_)) => {
                return b;
            },
            (None, None) => {},
        }
        Tracker::merge_equal(a, b)
    }

    fn merge_equal(a: Tracker, b: Tracker) -> (r: Tracker)
        requires
            a@.pos == b@.pos,
        ensures
            r@ == merge(a@, b@),
    {
        let mut r = a;
        let mut i: usize = 0;
        while i < b.labels.len()
            invariant
                i <= b.labels.len(),
                r.farthest == a.farthest,
                r@.labels == union_upto(a@.labels, b@.labels, i as nat),
            decreases b.labels.len() - i,
        {
            r.add(b.labels[i].clone());
            i = i + 1;
        }
        r
    }
}

} // verus!
