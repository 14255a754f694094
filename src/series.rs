use vstd::prelude::*;

verus! {

/// One axis's raw data: numbers or category labels.
#[derive(Clone, Debug)]
pub enum Series {
    Numeric(Vec<i64>),
    Label(Vec<String>),
}

/// A resolved entry of a series: its label (for label series) and the value used for plotting.
#[derive(Clone, Debug)]
pub struct Stick {
    pub label: Option<String>,
    pub value: i128,
}

/// What a series holds: its numbers, or the characters of its labels.
pub enum SeriesModel {
    Numeric(Seq<i64>),
    Label(Seq<Seq<char>>),
}

impl SeriesModel {
    /// Number of entries.
    pub open spec fn len(self) -> int {
        match self {
            SeriesModel::Numeric(v) => v.len() as int,
            SeriesModel::Label(ls) => ls.len() as int,
        }
    }

    /// The plotting value of entry `i`: the number itself, or the rank of the
    /// label among the distinct labels in first-seen order.
    pub open spec fn stick_value(self, i: int) -> int {
        match self {
            SeriesModel::Numeric(v) => v[i] as int,
            SeriesModel::Label(ls) => rank_in(first_seen(ls), ls[i]),
        }
    }
}

impl View for Series {
    type V = SeriesModel;

    open spec fn view(&self) -> SeriesModel {
        match self {
            Series::Numeric(v) => SeriesModel::Numeric(v@),
            Series::Label(v) => SeriesModel::Label(label_views(v@)),
        }
    }
}

/// A copy of `s`.
pub fn copy_series(s: &Series) -> (r: Series)
    ensures
        r@ == s@,
{
    match s {
        Series::Numeric(v) => {
            let c = v.clone();
            assert(c@ =~= v@);
            Series::Numeric(c)
        },
        Series::Label(v) => {
            let c = v.clone();
            assert(label_views(c@) =~= label_views(v@));
            Series::Label(c)
        },
    }
}

impl Series {
    /// Number of entries.
    pub open spec fn spec_len(&self) -> int {
        match self {
            Series::Numeric(v) => v@.len() as int,
            Series::Label(v) => v@.len() as int,
        }
    }

    /// Number of entries.
    pub fn len(&self) -> (r: usize)
        ensures
            r as int == self.spec_len(),
    {
        match self {
            Series::Numeric(v) => v.len(),
            Series::Label(v) => v.len(),
        }
    }

    /// Whether the series holds labels.
    pub open spec fn is_label(&self) -> bool {
        self is Label
    }

    /// Whether the series holds labels.
    pub fn is_label_series(&self) -> (r: bool)
        ensures
            r == self.is_label(),
    {
        match self {
            Series::Numeric(_) => false,
            Series::Label(_) => true,
        }
    }

    /// The plotting value of entry `i`: the number itself, or the rank of the
    /// label among the distinct labels in first-seen order.
    pub open spec fn stick_value(&self, i: int) -> int {
        self@.stick_value(i)
    }

    /// Whether `st` is the stick of entry `i`: the number itself, or the label
    /// with the rank of its first occurrence.
    pub open spec fn stick_at(&self, i: int, st: Stick) -> bool {
        match self {
            Series::Numeric(v) => st.label is None && st.value == v@[i] as int,
            Series::Label(v) => {
                &&& st.label == Some(v@[i])
                &&& st.value == self.stick_value(i)
                &&& 0 <= st.value < first_seen(label_views(v@)).len()
                &&& first_seen(label_views(v@))[st.value as int] == v@[i]@
            },
        }
    }

    /// One stick per entry, in the series' order.
    pub fn to_stick(&self) -> (r: Vec<Stick>)
        ensures
            r@.len() == self.spec_len(),
            forall|i: int| 0 <= i < r@.len() ==> self.stick_at(i, #[trigger] r@[i]),
            forall|i: int| 0 <= i < r@.len() ==> -0x1_0000_0000_0000_0000 <= (#[trigger] r@[i]).value <= 0x1_0000_0000_0000_0000,
    {
        let mut out: Vec<Stick> = Vec::new();
        match self {
            Series::Numeric(v) => {
                let mut i: usize = 0;
                while i < v.len()
                    invariant
                        i <= v.len(),
                        *self == Series::Numeric(*v),
                        out@.len() == i,
                        forall|j: int| 0 <= j < i ==> self.stick_at(j, #[trigger] out@[j]),
                        forall|j: int| 0 <= j < i ==> -0x1_0000_0000_0000_0000 <= (#[trigger] out@[j]).value <= 0x1_0000_0000_0000_0000,
                    decreases v.len() - i,
                {
                    out.push(Stick { label: None, value: v[i] as i128 });
                    assert(self.stick_at(i as int, out@[i as int]));
                    i = i + 1;
                }
            },
            Series::Label(v) => {
                let distinct = distinct_labels(v);
                let ghost views = label_views(v@);
                proof {
                    lemma_first_seen(views);
                }
                let mut i: usize = 0;
                while i < v.len()
                    invariant
                        i <= v.len(),
                        *self == Series::Label(*v),
                        views == label_views(v@),
                        label_views(distinct@) == first_seen(views),
                        first_seen(views).no_duplicates(),
                        forall|x: Seq<char>| #[trigger] first_seen(views).contains(x) <==> views.contains(x),
                        out@.len() == i,
                        forall|j: int| 0 <= j < i ==> self.stick_at(j, #[trigger] out@[j]),
                        forall|j: int| 0 <= j < i ==> -0x1_0000_0000_0000_0000 <= (#[trigger] out@[j]).value <= 0x1_0000_0000_0000_0000,
                    decreases v.len() - i,
                {
                    assert(views[i as int] == v@[i as int]@);
                    assert(first_seen(views).contains(v@[i as int]@));
                    let ghost fs = first_seen(views);
                    let mut k: usize = 0;
                    while k < distinct.len() && !(distinct[k] == v[i])
                        invariant
                            k <= distinct.len(),
                            i < v.len(),
                            label_views(distinct@) == fs,
                            forall|j: int| 0 <= j < k ==> fs[j] != v@[i as int]@,
                        decreases distinct.len() - k,
                    {
                        assert(fs[k as int] == distinct@[k as int]@);
                        k = k + 1;
                    }
                    proof {
                        if k == distinct.len() {
                            let j = choose|j: int| 0 <= j < fs.len() && fs[j] == v@[i as int]@;
                            assert(false);
                        }
                        assert(fs[k as int] == distinct@[k as int]@);
                        assert(self@.stick_value(i as int) == rank_in(fs, views[i as int]));
                        let c = rank_in(fs, v@[i as int]@);
                        assert(0 <= c < fs.len() && fs[c] == v@[i as int]@);
                        assert(c == k);
                    }
                    out.push(Stick { label: Some(v[i].clone()), value: k as i128 });
                    i = i + 1;
                }
            },
        }
        out
    }
}

/// The character sequences of a list of labels.
pub open spec fn label_views(ls: Seq<String>) -> Seq<Seq<char>> {
    ls.map_values(|s: String| s@)
}

/// The distinct labels of `ls`, in order of first occurrence.
pub open spec fn first_seen(ls: Seq<Seq<char>>) -> Seq<Seq<char>>
    decreases ls.len(),
{
    if ls.len() == 0 {
        Seq::empty()
    } else {
        let prev = first_seen(ls.drop_last());
        if prev.contains(ls.last()) {
            prev
        } else {
            prev.push(ls.last())
        }
    }
}

/// The position of `l` in `ls` (meaningful when `ls` holds it).
pub open spec fn rank_in(ls: Seq<Seq<char>>, l: Seq<char>) -> int {
    choose|i: int| 0 <= i < ls.len() && ls[i] == l
}

/// By induction on the length of `ls`.
proof fn lemma_first_seen_props(ls: Seq<Seq<char>>)
    ensures
        first_seen(ls).no_duplicates(),
        first_seen(ls).len() <= ls.len(),
        forall|x: Seq<char>| first_seen(ls).contains(x) <==> ls.contains(x),
    decreases ls.len(),
{
    if ls.len() > 0 {
        lemma_first_seen_props(ls.drop_last());
        let prev = first_seen(ls.drop_last());
        assert forall|x: Seq<char>| ls.contains(x) <==> (ls.drop_last().contains(x) || x == ls.last()) by {
            if ls.contains(x) {
                let i = choose|i: int| 0 <= i < ls.len() && ls[i] == x;
                if i < ls.len() - 1 {
                    assert(ls.drop_last()[i] == x);
                }
            }
            if ls.drop_last().contains(x) {
                let i = choose|i: int| 0 <= i < ls.len() - 1 && ls.drop_last()[i] == x;
                assert(ls[i] == x);
            }
            if x == ls.last() {
                assert(ls[ls.len() - 1] == x);
            }
        }
        if !prev.contains(ls.last()) {
            let np = prev.push(ls.last());
            assert forall|x: Seq<char>| np.contains(x) <==> (prev.contains(x) || x == ls.last()) by {
                if np.contains(x) {
                    let i = choose|i: int| 0 <= i < np.len() && np[i] == x;
                    if i < prev.len() {
                        assert(prev[i] == x);
                    }
                }
                if prev.contains(x) {
                    let i = choose|i: int| 0 <= i < prev.len() && prev[i] == x;
                    assert(np[i] == x);
                }
                if x == ls.last() {
                    assert(np[np.len() - 1] == x);
                }
            }
        }
    }
}

/// The distinct labels of `ls` in first-seen order, without duplicates.
pub proof fn lemma_first_seen(ls: Seq<Seq<char>>)
    ensures
        first_seen(ls).no_duplicates(),
        first_seen(ls).len() <= ls.len(),
        forall|x: Seq<char>| #[trigger] first_seen(ls).contains(x) <==> ls.contains(x),
{
    lemma_first_seen_props(ls);
}

/// Whether `v` holds a string whose characters are `l`.
fn contains_label(v: &Vec<String>, l: &String) -> (r: bool)
    ensures
        r == label_views(v@).contains(l@),
{
    let mut i: usize = 0;
    while i < v.len()
        invariant
            i <= v.len(),
            forall|j: int| 0 <= j < i ==> v@[j]@ != l@,
        decreases v.len() - i,
    {
        if v[i] == *l {
            assert(label_views(v@)[i as int] == l@);
            return true;
        }
        i = i + 1;
    }
    proof {
        if label_views(v@).contains(l@) {
            let j = choose|j: int| 0 <= j < label_views(v@).len() && label_views(v@)[j] == l@;
            assert(v@[j]@ == l@);
        }
    }
    false
}

/// The distinct labels of `v`, in order of first occurrence.
pub fn distinct_labels(v: &Vec<String>) -> (r: Vec<String>)
    ensures
        label_views(r@) == first_seen(label_views(v@)),
{
    let mut out: Vec<String> = Vec::new();
    let mut i: usize = 0;
    while i < v.len()
        invariant
            i <= v.len(),
            label_views(out@) == first_seen(label_views(v@.subrange(0, i as int))),
        decreases v.len() - i,
    {
        let ghost prefix = label_views(v@.subrange(0, i as int));
        let ghost next = label_views(v@.subrange(0, i + 1));
        assert(next.drop_last() =~= prefix);
        assert(next.last() == v@[i as int]@);
        if !contains_label(&out, &v[i]) {
            out.push(v[i].clone());
            assert(label_views(out@) =~= first_seen(prefix).push(v@[i as int]@));
        }
        i = i + 1;
    }
    assert(v@.subrange(0, v.len() as int) =~= v@);
    out
}

} // verus!
