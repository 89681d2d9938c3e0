//! Hierarchical, slash-delimited namespace identifiers.
//!
//! A path is an ordered sequence of non-empty string segments.  Construction
//! splits on `/` and drops empty segments; the empty path is valid.  Prefix
//! stripping and concatenation work segment-wise.

use vstd::prelude::*;
use vstd::std_specs::iter::IteratorSpec;

verus! {

broadcast use vstd::string::next_postcondition, vstd::string::axiom_spec_iter;

/// A hierarchical namespace identifier: a sequence of non-empty segments.
#[derive(Debug, PartialEq, Eq, Hash)]
pub struct Path {
    pub segments: Vec<String>,
}

impl View for Path {
    type V = Seq<Seq<char>>;

    open spec fn view(&self) -> Seq<Seq<char>> {
        self.segments.deep_view()
    }
}

impl DeepView for Path {
    type V = Seq<Seq<char>>;

    open spec fn deep_view(&self) -> Seq<Seq<char>> {
        self.view()
    }
}

/// Splitting state: what the split of `s` yields when the characters up to
/// `i` have produced the finished segments `acc` and the open segment `cur`.
pub open spec fn split_acc(s: Seq<char>, i: int, cur: Seq<char>, acc: Seq<Seq<char>>) -> Seq<
    Seq<char>,
>
    decreases s.len() - i,
{
    if i < 0 || i >= s.len() {
        if cur.len() > 0 {
            acc.push(cur)
        } else {
            acc
        }
    } else if s[i] == '/' {
        split_acc(s, i + 1, seq![], if cur.len() > 0 {
            acc.push(cur)
        } else {
            acc
        })
    } else {
        split_acc(s, i + 1, cur.push(s[i]), acc)
    }
}

/// The segments of `s`: maximal runs of characters between `/`, empty runs
/// dropped.
pub open spec fn spec_split(s: Seq<char>) -> Seq<Seq<char>> {
    split_acc(s, 0, seq![], seq![])
}

/// The slash-joined form of a segment sequence.
pub open spec fn spec_join(segs: Seq<Seq<char>>) -> Seq<char>
    decreases segs.len(),
{
    if segs.len() == 0 {
        seq![]
    } else if segs.len() == 1 {
        segs[0]
    } else {
        spec_join(segs.drop_last()) + seq!['/'] + segs.last()
    }
}

/// Whether `p` is a segment-wise prefix of `s`.
pub open spec fn spec_is_prefix(p: Seq<Seq<char>>, s: Seq<Seq<char>>) -> bool {
    p.len() <= s.len() && s.subrange(0, p.len() as int) == p
}

/// What `strip_prefix` returns: the remainder past `p`, or nothing.
pub open spec fn spec_strip(s: Seq<Seq<char>>, p: Seq<Seq<char>>) -> Option<Seq<Seq<char>>> {
    if spec_is_prefix(p, s) {
        Some(s.skip(p.len() as int))
    } else {
        None
    }
}

/// Relies on `FromIterator<char> for String`: collecting characters yields
/// the string of exactly those characters in order.
#[verifier::external_body]
fn string_from_chars(v: &Vec<char>) -> (r: String)
    ensures
        r@ == v@,
{
    v.iter().collect()
}

/// Every segment that the split yields is non-empty.
proof fn lemma_split_acc_nonempty(s: Seq<char>, i: int, cur: Seq<char>, acc: Seq<Seq<char>>)
    requires
        forall|k: int| 0 <= k < acc.len() ==> #[trigger] acc[k].len() > 0,
    ensures
        forall|k: int|
            0 <= k < split_acc(s, i, cur, acc).len() ==> #[trigger] split_acc(s, i, cur, acc)[k].len() > 0,
    decreases s.len() - i,
{
    let r = split_acc(s, i, cur, acc);
    if i < 0 || i >= s.len() {
        assert forall|k: int| 0 <= k < r.len() implies #[trigger] r[k].len() > 0 by {
            if cur.len() > 0 {
                if k < acc.len() {
                    assert(acc[k].len() > 0);
                } else {
                    assert(r[k] == cur);
                }
            } else {
                assert(r[k] == acc[k]);
            }
        };
    } else if s[i] == '/' {
        let acc2 = if cur.len() > 0 {
            acc.push(cur)
        } else {
            acc
        };
        assert forall|k: int| 0 <= k < acc2.len() implies #[trigger] acc2[k].len() > 0 by {
            if k < acc.len() {
                assert(acc[k].len() > 0);
            } else {
                assert(acc2[k] == cur);
            }
        };
        lemma_split_acc_nonempty(s, i + 1, seq![], acc2);
        assert forall|k: int| 0 <= k < r.len() implies #[trigger] r[k].len() > 0 by {
            assert(r[k] == split_acc(s, i + 1, seq![], acc2)[k]);
            assert(split_acc(s, i + 1, seq![], acc2)[k].len() > 0);
        };
    } else {
        lemma_split_acc_nonempty(s, i + 1, cur.push(s[i]), acc);
        assert forall|k: int| 0 <= k < r.len() implies #[trigger] r[k].len() > 0 by {
            assert(r[k] == split_acc(s, i + 1, cur.push(s[i]), acc)[k]);
            assert(split_acc(s, i + 1, cur.push(s[i]), acc)[k].len() > 0);
        };
    }
}

impl Path {
    /// Every segment is non-empty.
    pub open spec fn wf(&self) -> bool {
        forall|k: int| 0 <= k < self@.len() ==> self@[k].len() > 0
    }

    /// The empty path.
    pub fn empty() -> (r: Path)
        ensures
            r@ == Seq::<Seq<char>>::empty(),
            r.wf(),
    {
        let r = Path { segments: Vec::new() };
        assert(r@ =~= Seq::<Seq<char>>::empty());
        r
    }

    /// Split `s` on `/`, dropping empty segments.
    pub fn new(s: &str) -> (r: Path)
        ensures
            r@ == spec_split(s@),
            r.wf(),
    {
        let mut segments: Vec<String> = Vec::new();
        let mut cur: Vec<char> = Vec::new();
        let mut it = s.chars();
        let ghost mut i: int = 0;
        proof {
            assert(s@.skip(0) =~= s@);
            assert(segments.deep_view() =~~= Seq::<Seq<char>>::empty());
            assert(cur@ =~= Seq::<char>::empty());
        }
        loop
            invariant_except_break
                spec_split(s@) == split_acc(s@, i, cur@, segments.deep_view()),
            invariant
                0 <= i <= s@.len(),
                IteratorSpec::remaining(&it) == s@.skip(i),
            ensures
                segments.deep_view() == spec_split(s@),
            decreases s@.len() - i,
        {
            let ghost pre_acc = segments.deep_view();
            let ghost pre_cur = cur@;
            let ghost pre_len = segments@.len();
            match it.next() {
                Some(c) => {
                    proof {
                        assert(s@.skip(i).len() > 0);
                        assert(c == s@.skip(i)[0]);
                        assert(s@.skip(i)[0] == s@[i]);
                        assert(s@.skip(i).drop_first() =~= s@.skip(i + 1));
                    }
                    if c == '/' {
                        if cur.len() > 0 {
                            let seg = string_from_chars(&cur);
                            segments.push(seg);
                            cur = Vec::new();
                            proof {
                                assert(pre_acc.len() == pre_len);
                                assert(segments.deep_view() =~~= pre_acc.push(pre_cur));
                            }
                        }
                        proof {
                            assert(cur@ =~= Seq::<char>::empty());
                            i = i + 1;
                        }
                    } else {
                        cur.push(c);
                        proof {
                            i = i + 1;
                        }
                    }
                },
                None => {
                    proof {
                        assert(s@.skip(i).len() == 0);
                        assert(i == s@.len());
                    }
                    if cur.len() > 0 {
                        let seg = string_from_chars(&cur);
                        segments.push(seg);
                        proof {
                            assert(pre_acc.len() == pre_len);
                            assert(segments.deep_view() =~~= pre_acc.push(pre_cur));
                        }
                    }
                    proof {
                        assert(segments.deep_view() == spec_split(s@));
                    }
                    break;
                },
            }
        }
        proof {
            lemma_split_acc_nonempty(s@, 0, Seq::empty(), Seq::empty());
        }
        let r = Path { segments };
        r
    }

    /// The number of segments.
    pub fn len(&self) -> (r: usize)
        ensures
            r == self@.len(),
    {
        self.segments.len()
    }

    /// The slash-joined form of the path.
    pub fn as_str(&self) -> (r: String)
        ensures
            r@ == spec_join(self@),
    {
        let mut out = String::new();
        let mut k: usize = 0;
        while k < self.segments.len()
            invariant
                k <= self@.len(),
                self@.len() == self.segments@.len(),
                out@ == spec_join(self@.take(k as int)),
            decreases self@.len() - k,
        {
            if k > 0 {
                vstd::string::StringExecFns::append(&mut out, "/");
                proof {
                    reveal_strlit("/");
                }
            }
            vstd::string::StringExecFns::append(&mut out, self.segments[k].as_str());
            k = k + 1;
            proof {
                assert(self@.take(k as int).drop_last() =~= self@.take(k as int - 1));
                assert(self@.take(k as int).last() == self@[k - 1]);
                if k == 1 {
                    assert(out@ =~= spec_join(self@.take(k as int)));
                } else {
                    assert(out@ =~= spec_join(self@.take(k as int)));
                }
            }
        }
        assert(self@.take(self@.len() as int) =~= self@);
        out
    }

    /// If `prefix` is a segment-wise prefix of `self`, the remainder; else
    /// nothing.
    pub fn strip_prefix(&self, prefix: &Path) -> (r: Option<Path>)
        ensures
            match r {
                Some(rest) => spec_strip(self@, prefix@) == Some(rest@),
                None => spec_strip(self@, prefix@) is None,
            },
    {
        if prefix.segments.len() > self.segments.len() {
            assert(spec_strip(self@, prefix@) is None);
            return None;
        }
        let n = prefix.segments.len();
        let mut k: usize = 0;
        while k < n
            invariant
                k <= n,
                n == prefix.segments@.len(),
                n <= self.segments@.len(),
                self@.len() == self.segments@.len(),
                prefix@.len() == prefix.segments@.len(),
                forall|m: int| 0 <= m < k ==> self@[m] == prefix@[m],
            decreases n - k,
        {
            if self.segments[k] != prefix.segments[k] {
                assert(self@[k as int] != prefix@[k as int]);
                assert(!spec_is_prefix(prefix@, self@)) by {
                    if spec_is_prefix(prefix@, self@) {
                        assert(self@.subrange(0, prefix@.len() as int)[k as int] == prefix@[k as int]);
                    }
                };
                return None;
            }
            assert(self@[k as int] == prefix@[k as int]);
            k = k + 1;
        }
        assert(spec_is_prefix(prefix@, self@)) by {
            assert(self@.subrange(0, prefix@.len() as int) =~= prefix@);
        };
        let mut rest: Vec<String> = Vec::new();
        let mut m: usize = n;
        while m < self.segments.len()
            invariant
                n <= m <= self.segments@.len(),
                self@.len() == self.segments@.len(),
                rest.deep_view() == self@.subrange(n as int, m as int),
            decreases self.segments@.len() - m,
        {
            let ghost pre = rest.deep_view();
            let ghost pre_len = rest@.len();
            rest.push(self.segments[m].clone());
            m = m + 1;
            proof {
                assert(pre.len() == pre_len);
                assert(rest.deep_view() =~~= self@.subrange(n as int, m as int));
            }
        }
        let r = Path { segments: rest };
        assert(r@ =~= self@.skip(n as int));
        Some(r)
    }

    /// The path made of `self`'s segments followed by `other`'s.
    pub fn concat(&self, other: &Path) -> (r: Path)
        ensures
            r@ == self@ + other@,
    {
        let mut segments: Vec<String> = Vec::new();
        let mut k: usize = 0;
        while k < self.segments.len()
            invariant
                k <= self.segments@.len(),
                self@.len() == self.segments@.len(),
                segments.deep_view() == self@.take(k as int),
            decreases self.segments@.len() - k,
        {
            let ghost pre = segments.deep_view();
            let ghost pre_len = segments@.len();
            segments.push(self.segments[k].clone());
            k = k + 1;
            proof {
                assert(pre.len() == pre_len);
                assert(segments.deep_view() =~~= self@.take(k as int));
            }
        }
        assert(segments.deep_view() =~= self@);
        let ghost first = segments.deep_view();
        let mut m: usize = 0;
        while m < other.segments.len()
            invariant
                m <= other.segments@.len(),
                other@.len() == other.segments@.len(),
                segments.deep_view() == first + other@.take(m as int),
            decreases other.segments@.len() - m,
        {
            let ghost pre = segments.deep_view();
            let ghost pre_len = segments@.len();
            proof {
                assert(other@[m as int] == other.segments@[m as int]@);
            }
            segments.push(other.segments[m].clone());
            m = m + 1;
            proof {
                assert(pre.len() == pre_len);
                assert(pre_len == first.len() + m - 1);
                let target = first + other@.take(m as int);
                assert forall|k: int| 0 <= k < target.len() implies segments.deep_view()[k] == target[k] by {
                    if k < pre_len {
                        assert(segments.deep_view()[k] == pre[k]);
                        assert(pre[k] == (first + other@.take(m as int - 1))[k]);
                        if k >= first.len() {
                            assert((first + other@.take(m as int - 1))[k] == other@.take(m as int - 1)[k
                                - first.len()]);
                            assert(target[k] == other@.take(m as int)[k - first.len()]);
                        }
                    } else {
                        assert(segments.deep_view()[k] == segments@[k]@);
                        assert(target[k] == other@.take(m as int)[k - first.len()]);
                        assert(k - first.len() == m - 1);
                        assert(other@.take(m as int)[k - first.len()] == other@[k - first.len()]);
                    }
                };
                assert(segments.deep_view() =~= target);
            }
        }
        let r = Path { segments };
        assert(r@ =~= self@ + other@);
        r
    }

    /// Whether `self` is a segment-wise prefix of `other`.
    pub fn is_prefix_of(&self, other: &Path) -> (r: bool)
        ensures
            r == spec_is_prefix(self@, other@),
    {
        match other.strip_prefix(self) {
            Some(_) => true,
            None => false,
        }
    }
}

impl Default for Path {
    /// The empty path.
    fn default() -> (r: Path)
        ensures
            r@ == Seq::<Seq<char>>::empty(),
    {
        Path::empty()
    }
}

impl Clone for Path {
    /// A copy with the same segments.
    fn clone(&self) -> (r: Path)
        ensures
            r@ == self@,
    {
        let mut segments: Vec<String> = Vec::new();
        let mut k: usize = 0;
        while k < self.segments.len()
            invariant
                k <= self.segments@.len(),
                self@.len() == self.segments@.len(),
                segments.deep_view() == self@.take(k as int),
            decreases self.segments@.len() - k,
        {
            let ghost pre = segments.deep_view();
            let ghost pre_len = segments@.len();
            segments.push(self.segments[k].clone());
            k = k + 1;
            proof {
                assert(pre.len() == pre_len);
                assert(segments.deep_view() =~~= self@.take(k as int));
            }
        }
        let r = Path { segments };
        assert(r@ =~= self@);
        r
    }
}

/// Stripping a concatenation returns the appended part: for all paths,
/// `strip_prefix(concat(a, b), a) == Some(b)`.
pub proof fn lemma_strip_prefix_concat(a: Seq<Seq<char>>, b: Seq<Seq<char>>)
    ensures
        spec_strip(a + b, a) == Some(b),
{
    assert((a + b).subrange(0, a.len() as int) =~= a);
    assert((a + b).skip(a.len() as int) =~= b);
}

/// Stripping a non-prefix returns nothing.
pub proof fn lemma_strip_prefix_none(s: Seq<Seq<char>>, p: Seq<Seq<char>>)
    requires
        !spec_is_prefix(p, s),
    ensures
        spec_strip(s, p) is None,
{
}

/// Path concatenation is associative.
pub proof fn lemma_concat_assoc(a: Seq<Seq<char>>, b: Seq<Seq<char>>, c: Seq<Seq<char>>)
    ensures
        (a + b) + c == a + (b + c),
{
    assert((a + b) + c =~= a + (b + c));
}

} // verus!
