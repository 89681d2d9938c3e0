//! The origin: a namespace registry mapping paths to live broadcasts,
//! with an announcement bus that scoped consumers observe in order.

use vstd::prelude::*;

use crate::path::{spec_is_prefix, Path};

verus! {

/// One announcement: a path became active or inactive.
#[derive(Debug)]
pub struct AnnounceEvent {
    pub path: Path,
    pub active: bool,
}

impl Clone for AnnounceEvent {
    /// A copy announcing the same change.
    fn clone(&self) -> (r: AnnounceEvent)
        ensures
            r.path@ == self.path@,
            r.active == self.active,
    {
        AnnounceEvent { path: self.path.clone(), active: self.active }
    }
}

/// The mathematical shape of an announcement log.
pub open spec fn log_view(log: Seq<AnnounceEvent>) -> Seq<(Seq<Seq<char>>, bool)> {
    log.map_values(|e: AnnounceEvent| (e.path@, e.active))
}

/// The activity flags of the events for one path, in order.
pub open spec fn spec_filtered(log: Seq<(Seq<Seq<char>>, bool)>, p: Seq<Seq<char>>) -> Seq<bool>
    decreases log.len(),
{
    if log.len() == 0 {
        Seq::empty()
    } else {
        let rest = spec_filtered(log.drop_last(), p);
        if log.last().0 == p {
            rest.push(log.last().1)
        } else {
            rest
        }
    }
}

/// Whether a flag sequence alternates, starting with `expected`.
pub open spec fn spec_alternating(s: Seq<bool>, expected: bool) -> bool
    decreases s.len(),
{
    if s.len() == 0 {
        true
    } else {
        s[0] == expected && spec_alternating(s.drop_first(), !expected)
    }
}

/// The state of a path after a flag sequence: active exactly when the
/// sequence is non-empty and ends active.
pub open spec fn spec_ends_active(s: Seq<bool>) -> bool {
    s.len() > 0 && s.last()
}

/// An alternating sequence stays alternating when the pushed flag flips
/// the current state.
proof fn lemma_alternating_push(s: Seq<bool>, b: bool)
    requires
        spec_alternating(s, true),
        b == !spec_ends_active(s),
    ensures
        spec_alternating(s.push(b), true),
    decreases s.len(),
{
    if s.len() == 0 {
        assert(s.push(b)[0] == b);
        assert(s.push(b).drop_first() =~= Seq::<bool>::empty());
        assert(spec_alternating(Seq::<bool>::empty(), !true));
        assert(spec_alternating(s.push(b), true));
    } else {
        lemma_alternating_push_rec(s, b, true);
    }
}

/// Helper: the same statement for an arbitrary starting expectation.
proof fn lemma_alternating_push_rec(s: Seq<bool>, b: bool, expected: bool)
    requires
        spec_alternating(s, expected),
        s.len() > 0 ==> b == !s.last(),
        s.len() == 0 ==> b == expected,
    ensures
        spec_alternating(s.push(b), expected),
    decreases s.len(),
{
    if s.len() == 0 {
        assert(s.push(b)[0] == b);
        assert(s.push(b).drop_first() =~= Seq::<bool>::empty());
        assert(spec_alternating(Seq::<bool>::empty(), !expected));
        assert(spec_alternating(s.push(b), expected));
    } else {
        assert(s.push(b)[0] == s[0]);
        assert(s.push(b).drop_first() =~= s.drop_first().push(b));
        if s.len() > 1 {
            assert(s.drop_first().last() == s.last());
        } else {
            assert(s.drop_first().len() == 0);
            assert(s[0] == expected);
            assert(b == !expected);
        }
        lemma_alternating_push_rec(s.drop_first(), b, !expected);
        assert(spec_alternating(s.drop_first().push(b), !expected));
        assert(spec_alternating(s.push(b).drop_first(), !expected));
        assert(s.push(b)[0] == expected);
        assert(spec_alternating(s.push(b), expected));
    }
}

/// The producer half of an origin: the full announcement log.
pub struct OriginProducer {
    /// Every announcement ever made, in order.
    pub log: Vec<AnnounceEvent>,
}

impl OriginProducer {
    /// For every path, its events alternate, starting with an activation.
    pub open spec fn wf(self) -> bool {
        forall|p: Seq<Seq<char>>| spec_alternating(#[trigger] spec_filtered(log_view(self.log@), p), true)
    }

    /// A fresh origin with nothing announced.
    pub fn new() -> (r: OriginProducer)
        ensures
            r.log@ == Seq::<AnnounceEvent>::empty(),
            r.wf(),
    {
        let r = OriginProducer { log: Vec::new() };
        proof {
            assert forall|p: Seq<Seq<char>>|
                spec_alternating(#[trigger] spec_filtered(log_view(r.log@), p), true) by {
                assert(log_view(r.log@) =~= Seq::<(Seq<Seq<char>>, bool)>::empty());
            };
        }
        r
    }

    /// Whether `path` is currently announced.
    pub open spec fn spec_active(self, p: Seq<Seq<char>>) -> bool {
        spec_ends_active(spec_filtered(log_view(self.log@), p))
    }

    /// Whether `path` is currently announced.
    pub fn is_active(&self, path: &Path) -> (r: bool)
        ensures
            r == self.spec_active(path@),
    {
        let mut k: usize = self.log.len();
        proof {
            assert(self.log@.take(self.log@.len() as int) =~= self.log@);
        }
        while k > 0
            invariant
                k <= self.log@.len(),
                spec_filtered(log_view(self.log@), path@) == spec_filtered(
                    log_view(self.log@.take(k as int)),
                    path@,
                ),
            decreases k,
        {
            proof {
                assert(log_view(self.log@.take(k as int)).last() == (
                    self.log@[k - 1].path@,
                    self.log@[k - 1].active,
                ));
                assert(log_view(self.log@.take(k as int)).drop_last() =~= log_view(
                    self.log@.take(k - 1),
                ));
            }
            let same = paths_equal(&self.log[k - 1].path, path);
            if same {
                proof {
                    assert(spec_filtered(log_view(self.log@.take(k as int)), path@).last()
                        == self.log@[k - 1].active);
                    assert(spec_filtered(log_view(self.log@.take(k as int)), path@).len() > 0);
                }
                return self.log[k - 1].active;
            }
            k = k - 1;
        }
        proof {
            assert(log_view(self.log@.take(0)) =~= Seq::<(Seq<Seq<char>>, bool)>::empty());
        }
        false
    }

    /// Announce a broadcast under `path`.  Re-publishing an active path
    /// first retracts it, so every observer still sees an alternating
    /// event sequence.
    pub fn publish_broadcast(&mut self, path: &Path)
        requires
            old(self).wf(),
            old(self).log@.len() + 2 <= usize::MAX,
        ensures
            final(self).wf(),
            final(self).spec_active(path@),
            final(self).log@.len() >= old(self).log@.len() + 1,
            forall|k: int|
                0 <= k < old(self).log@.len() ==> #[trigger] final(self).log@[k] == old(self).log@[k],
            forall|k: int|
                old(self).log@.len() <= k < final(self).log@.len()
                    ==> (#[trigger] final(self).log@[k]).path@ == path@,
    {
        if self.is_active(path) {
            self.push_event(path, false);
            self.push_event(path, true);
        } else {
            self.push_event(path, true);
        }
    }

    /// Retract the broadcast under `path`, if one is active.
    pub fn unpublish_broadcast(&mut self, path: &Path)
        requires
            old(self).wf(),
            old(self).log@.len() + 1 <= usize::MAX,
        ensures
            final(self).wf(),
            !final(self).spec_active(path@),
            forall|k: int|
                0 <= k < old(self).log@.len() ==> #[trigger] final(self).log@[k] == old(self).log@[k],
            forall|k: int|
                old(self).log@.len() <= k < final(self).log@.len()
                    ==> (#[trigger] final(self).log@[k]).path@ == path@,
    {
        if self.is_active(path) {
            self.push_event(path, false);
        }
    }

    /// Append one event whose flag flips the path's current state.
    fn push_event(&mut self, path: &Path, active: bool)
        requires
            old(self).wf(),
            active == !old(self).spec_active(path@),
            old(self).log@.len() < usize::MAX,
        ensures
            final(self).wf(),
            final(self).log@.len() == old(self).log@.len() + 1,
            (final(self).log@.last()).path@ == path@,
            (final(self).log@.last()).active == active,
            final(self).spec_active(path@) == active,
            forall|k: int|
                0 <= k < old(self).log@.len() ==> #[trigger] final(self).log@[k] == old(self).log@[k],
    {
        let e = AnnounceEvent { path: path.clone(), active };
        let ghost pre = self.log@;
        self.log.push(e);
        proof {
            assert(e.path@ == path@);
            assert forall|p: Seq<Seq<char>>|
                spec_alternating(#[trigger] spec_filtered(log_view(self.log@), p), true) by {
                assert(log_view(self.log@).drop_last() =~= log_view(pre));
                assert(log_view(self.log@).last() == (e.path@, active));
                if p == path@ {
                    assert(spec_filtered(log_view(self.log@), p) == spec_filtered(
                        log_view(pre),
                        p,
                    ).push(active));
                    lemma_alternating_push(spec_filtered(log_view(pre), p), active);
                } else {
                    assert(spec_filtered(log_view(self.log@), p) == spec_filtered(log_view(pre), p));
                }
            };
            assert(log_view(self.log@).drop_last() =~= log_view(pre));
            assert(spec_filtered(log_view(self.log@), path@) == spec_filtered(
                log_view(pre),
                path@,
            ).push(active));
            assert(self.log@.take(pre.len() as int) =~= pre);
        }
    }
}

/// Whether two paths hold the same segments.
pub fn paths_equal(a: &Path, b: &Path) -> (r: bool)
    ensures
        r == (a@ == b@),
{
    if a.segments.len() != b.segments.len() {
        proof {
            assert(a@.len() == a.segments@.len());
            assert(b@.len() == b.segments@.len());
        }
        return false;
    }
    let mut k: usize = 0;
    while k < a.segments.len()
        invariant
            k <= a.segments@.len(),
            a.segments@.len() == b.segments@.len(),
            a@.len() == a.segments@.len(),
            b@.len() == b.segments@.len(),
            forall|m: int| 0 <= m < k ==> a@[m] == b@[m],
        decreases a.segments@.len() - k,
    {
        if self_ne(&a.segments[k], &b.segments[k]) {
            assert(a@[k as int] != b@[k as int]);
            return false;
        }
        assert(a@[k as int] == b@[k as int]);
        k = k + 1;
    }
    proof {
        assert(a@ =~= b@);
    }
    true
}

/// Whether two strings differ.
fn self_ne(a: &String, b: &String) -> (r: bool)
    ensures
        r == (a@ != b@),
{
    !a.eq(b)
}

/// Whether some prefix in `scopes` covers `p`.
pub open spec fn spec_in_scope(scopes: Seq<Seq<Seq<char>>>, p: Seq<Seq<char>>) -> bool {
    exists|k: int| 0 <= k < scopes.len() && spec_is_prefix(#[trigger] scopes[k], p)
}

/// A scoped consumer of an origin: a cursor over the log, seeing only
/// the paths under its prefixes.
pub struct OriginConsumer {
    /// The next log position to look at.
    pub cursor: usize,
    /// The path prefixes this consumer may see.
    pub scopes: Vec<Path>,
}

impl OriginConsumer {
    /// The scope prefixes as mathematical values.
    pub open spec fn scopes_v(self) -> Seq<Seq<Seq<char>>> {
        self.scopes.deep_view()
    }

    /// Narrow this consumer to the given prefixes.  Allowed exactly when
    /// every requested prefix lies under one of this consumer's scopes;
    /// a request outside the scope is unauthorized.
    pub fn consume_only(&self, prefixes: Vec<Path>) -> (r: Option<OriginConsumer>)
        ensures
            match r {
                Some(c) => (forall|k: int|
                    0 <= k < prefixes.deep_view().len() ==> spec_in_scope(
                        self.scopes_v(),
                        #[trigger] prefixes.deep_view()[k],
                    )) && c.scopes_v() == prefixes.deep_view() && c.cursor == self.cursor,
                None => !(forall|k: int|
                    0 <= k < prefixes.deep_view().len() ==> spec_in_scope(
                        self.scopes_v(),
                        #[trigger] prefixes.deep_view()[k],
                    )),
            },
    {
        let mut k: usize = 0;
        while k < prefixes.len()
            invariant
                k <= prefixes@.len(),
                prefixes.deep_view().len() == prefixes@.len(),
                forall|m: int|
                    0 <= m < k ==> spec_in_scope(self.scopes_v(), #[trigger] prefixes.deep_view()[m]),
            decreases prefixes@.len() - k,
        {
            proof {
                assert(prefixes.deep_view()[k as int] == prefixes@[k as int]@);
            }
            if !self.allows(&prefixes[k]) {
                return None;
            }
            k = k + 1;
        }
        Some(OriginConsumer { cursor: self.cursor, scopes: prefixes })
    }

    /// Whether this consumer may see `path`.
    pub fn allows(&self, path: &Path) -> (r: bool)
        ensures
            r == spec_in_scope(self.scopes_v(), path@),
    {
        let mut k: usize = 0;
        while k < self.scopes.len()
            invariant
                k <= self.scopes@.len(),
                self.scopes_v().len() == self.scopes@.len(),
                forall|m: int|
                    0 <= m < k ==> !spec_is_prefix(#[trigger] self.scopes_v()[m], path@),
            decreases self.scopes@.len() - k,
        {
            proof {
                assert(self.scopes_v()[k as int] == self.scopes@[k as int]@);
            }
            if self.scopes[k].is_prefix_of(path) {
                return true;
            }
            k = k + 1;
        }
        false
    }

    /// The next in-scope log position at or past `i`, if any.
    pub open spec fn spec_next_event(self, log: Seq<AnnounceEvent>, i: int) -> Option<int>
        decreases log.len() - i,
    {
        if i < 0 || i >= log.len() {
            None
        } else if spec_in_scope(self.scopes_v(), log[i].path@) {
            Some(i)
        } else {
            self.spec_next_event(log, i + 1)
        }
    }

    /// Observe the next announcement in this consumer's scope, if one is
    /// ready.  Events arrive in log order; nothing in scope is skipped.
    pub fn announced(&mut self, origin: &OriginProducer) -> (r: Option<AnnounceEvent>)
        ensures
            final(self).scopes == old(self).scopes,
            match r {
                Some(e) => {
                    &&& old(self).spec_next_event(origin.log@, old(self).cursor as int) == Some(
                        final(self).cursor - 1,
                    )
                    &&& origin.log@[final(self).cursor - 1].path@ == e.path@
                    &&& origin.log@[final(self).cursor - 1].active == e.active
                    &&& old(self).cursor <= final(self).cursor - 1 < origin.log@.len()
                },
                None => old(self).spec_next_event(origin.log@, old(self).cursor as int) is None
                    && final(self).cursor == old(self).cursor,
            },
    {
        let mut k: usize = self.cursor;
        if k > origin.log.len() {
            return None;
        }
        while k < origin.log.len()
            invariant
                old(self).cursor <= k <= origin.log@.len(),
                self == old(self),
                old(self).spec_next_event(origin.log@, old(self).cursor as int) == old(
                    self,
                ).spec_next_event(origin.log@, k as int),
            decreases origin.log@.len() - k,
        {
            if self.allows(&origin.log[k].path) {
                let e = origin.log[k].clone();
                proof {
                    assert(e.path@ == origin.log@[k as int].path@);
                }
                self.cursor = k + 1;
                return Some(e);
            }
            k = k + 1;
        }
        None
    }
}

/// The announcements any consumer observes for one path alternate,
/// starting with an activation: an observer can never see two
/// consecutive activations nor two consecutive retractions of the same
/// path.
pub proof fn lemma_announce_alternating(o: OriginProducer, p: Seq<Seq<char>>)
    requires
        o.wf(),
    ensures
        spec_alternating(spec_filtered(log_view(o.log@), p), true),
{
}

} // verus!
