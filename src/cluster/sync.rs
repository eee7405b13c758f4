//! Cluster synchronization: merging a peer's screens into the cluster,
//! adopting a peer's cluster, and taking a new screen layout.

use vstd::prelude::*;

use super::{
    chain_ends, screens_valid, screens_wf, views, Action, Cluster, ClusterView, Edges, Index, IpAddress,
    NotInCluster, Screen, ScreenView, Direction,
};

verus! {

/// `screens` already holds a screen that shares a network address (the IP,
/// whatever the port) with `s`.
pub open spec fn known(screens: Seq<ScreenView>, s: ScreenView) -> bool {
    exists|k: int, i: int|
        #![trigger screens[i].has_ip(s.addrs[k].ip)]
        0 <= k < s.addrs.len() && 0 <= i < screens.len() && screens[i].has_ip(s.addrs[k].ip)
}

/// The screen reached from `i` by following right edges, at most `fuel` of
/// them.
pub open spec fn rightmost_from(screens: Seq<ScreenView>, i: int, fuel: nat) -> int
    decreases fuel,
{
    match screens[i].edges.right {
        Some(j) => if fuel == 0 {
            i
        } else {
            rightmost_from(screens, j as int, (fuel - 1) as nat)
        },
        None => i,
    }
}

/// The right end of the chain that starts at the first screen.
pub open spec fn rightmost(screens: Seq<ScreenView>) -> int {
    rightmost_from(screens, 0, screens.len())
}

/// `s` appended as the new right neighbour of the rightmost screen, with
/// that screen as its only neighbour.
pub open spec fn append(screens: Seq<ScreenView>, s: ScreenView) -> Seq<ScreenView> {
    let r = rightmost(screens);
    let n = screens.len();
    let old_r = screens[r];
    let linked = ScreenView {
        edges: Edges {
            top: old_r.edges.top,
            right: Some(n as Index),
            bottom: old_r.edges.bottom,
            left: old_r.edges.left,
        },
        ..old_r
    };
    let added = ScreenView {
        edges: Edges { top: None, right: None, bottom: None, left: Some(r as Index) },
        ..s
    };
    screens.update(r, linked).push(added)
}

/// Each screen of `others` in turn, appended unless one of its addresses is
/// already known (or the cluster is full).
pub open spec fn merged(screens: Seq<ScreenView>, others: Seq<ScreenView>) -> Seq<ScreenView>
    decreases others.len(),
{
    if others.len() == 0 {
        screens
    } else {
        let prev = merged(screens, others.drop_last());
        let s = others.last();
        if known(prev, s) || prev.len() >= 256 {
            prev
        } else {
            append(prev, s)
        }
    }
}

/// Screen `i` is where the host finds itself: it holds host address `k`,
/// no screen holds an earlier host address, and no earlier screen holds
/// address `k`.
pub open spec fn located_at(screens: Seq<ScreenView>, ips: Seq<IpAddress>, i: int, k: int) -> bool {
    &&& 0 <= i < screens.len()
    &&& 0 <= k < ips.len()
    &&& screens[i].has_ip(ips[k])
    &&& forall|k2: int, j: int|
        0 <= k2 < k && 0 <= j < screens.len() ==> !(#[trigger] screens[j].has_ip(ips[k2]))
    &&& forall|j: int| 0 <= j < i ==> !(#[trigger] screens[j].has_ip(ips[k]))
}

pub open spec fn located(screens: Seq<ScreenView>, ips: Seq<IpAddress>, i: int) -> bool {
    exists|k: int| located_at(screens, ips, i, k)
}

/// The screen of the host: the first screen holding the host's first
/// address that any screen holds.
pub open spec fn locate(screens: Seq<ScreenView>, ips: Seq<IpAddress>) -> Option<int> {
    if exists|i: int| located(screens, ips, i) {
        Some(choose|i: int| located(screens, ips, i))
    } else {
        None
    }
}

impl ClusterView {
    /// The cluster after merging in the screens of `other`.
    pub open spec fn merge(self, other: ClusterView) -> ClusterView {
        ClusterView { screens: merged(self.screens, other.screens), ..self }
    }

    /// The cluster after adopting `other` on a host with addresses `ips`,
    /// and the host-side effects; none when the host is not in `other`.
    pub open spec fn replace(self, other: ClusterView, ips: Seq<IpAddress>) -> Option<(ClusterView, Seq<Action>)> {
        match locate(other.screens, ips) {
            Some(i) => Some(
                (ClusterView { local_screen: i as Index, ..other }).commit(other.focus, self.locally_focused()),
            ),
            None => None,
        }
    }
}

proof fn lemma_rightmost_valid(screens: Seq<ScreenView>, i: int, fuel: nat)
    requires
        screens_wf(screens),
        0 <= i < screens.len(),
    ensures
        0 <= rightmost_from(screens, i, fuel) < screens.len(),
        fuel == screens.len() && i == 0 ==> rightmost(screens) == rightmost_from(screens, i, fuel),
    decreases fuel,
{
    assert(screens[i].wf(screens.len()));
    if let Some(j) = screens[i].edges.right {
        if fuel > 0 {
            lemma_rightmost_valid(screens, j as int, (fuel - 1) as nat);
        }
    }
}

proof fn lemma_append_wf(screens: Seq<ScreenView>, s: ScreenView)
    requires
        screens_wf(screens),
        screens.len() < 256,
        s.sized(),
    ensures
        screens_wf(append(screens, s)),
        append(screens, s).len() == screens.len() + 1,
{
    lemma_rightmost_valid(screens, 0, screens.len());
    let a = append(screens, s);
    assert forall|i: int| 0 <= i < a.len() implies (#[trigger] a[i]).wf(a.len()) by {
        if i < screens.len() {
            assert(screens[i].wf(screens.len()));
        }
    }
}

proof fn lemma_located_unique(screens: Seq<ScreenView>, ips: Seq<IpAddress>, i1: int, k1: int, i2: int, k2: int)
    requires
        located_at(screens, ips, i1, k1),
        located_at(screens, ips, i2, k2),
    ensures
        i1 == i2,
{
    if k1 < k2 {
        assert(!screens[i1].has_ip(ips[k1]));
    } else if k2 < k1 {
        assert(!screens[i2].has_ip(ips[k2]));
    } else if i1 < i2 {
        assert(!screens[i1].has_ip(ips[k2]));
    } else if i2 < i1 {
        assert(!screens[i2].has_ip(ips[k1]));
    }
}

/// Whether `screens` already holds an address (IP) of `s`.
fn knows(screens: &Vec<Screen>, s: &Screen) -> (r: bool)
    ensures
        r == known(views(screens@), s@),
{
    let ghost v = views(screens@);
    let mut k: usize = 0;
    while k < s.addrs.len()
        invariant
            v == views(screens@),
            k <= s@.addrs.len(),
            forall|k2: int, i: int|
                0 <= k2 < k && 0 <= i < v.len() ==> !(#[trigger] v[i].has_ip(s@.addrs[k2].ip)),
        decreases s@.addrs.len() - k,
    {
        let ip = s.addrs[k].ip;
        let mut i: usize = 0;
        while i < screens.len()
            invariant
                v == views(screens@),
                k < s@.addrs.len(),
                ip == s@.addrs[k as int].ip,
                i <= v.len(),
                forall|k2: int, i2: int|
                    0 <= k2 < k && 0 <= i2 < v.len() ==> !(#[trigger] v[i2].has_ip(s@.addrs[k2].ip)),
                forall|i2: int| 0 <= i2 < i ==> !(#[trigger] v[i2].has_ip(ip)),
            decreases v.len() - i,
        {
            let addrs = &screens[i].addrs;
            assert(addrs@ == v[i as int].addrs);
            let mut m: usize = 0;
            while m < addrs.len()
                invariant
                    v == views(screens@),
                    k < s@.addrs.len(),
                    ip == s@.addrs[k as int].ip,
                    i < v.len(),
                    addrs@ == v[i as int].addrs,
                    m <= addrs@.len(),
                    forall|m2: int| 0 <= m2 < m ==> (#[trigger] addrs@[m2]).ip != ip,
                decreases addrs@.len() - m,
            {
                if addrs[m].ip == ip {
                    assert(v[i as int].addrs[m as int].ip == ip);
                    assert(v[i as int].has_ip(s@.addrs[k as int].ip));
                    return true;
                }
                m = m + 1;
            }
            i = i + 1;
        }
        k = k + 1;
    }
    false
}

/// The screen of the host with addresses `ips`, as `locate` gives it.
fn find_local(screens: &Vec<Screen>, ips: &Vec<IpAddress>) -> (r: Option<usize>)
    ensures
        match r {
            Some(i) => locate(views(screens@), ips@) == Some(i as int),
            None => locate(views(screens@), ips@) is None,
        },
{
    let ghost v = views(screens@);
    let mut k: usize = 0;
    while k < ips.len()
        invariant
            v == views(screens@),
            k <= ips@.len(),
            forall|k2: int, j: int|
                0 <= k2 < k && 0 <= j < v.len() ==> !(#[trigger] v[j].has_ip(ips@[k2])),
        decreases ips@.len() - k,
    {
        let ip = ips[k];
        let mut i: usize = 0;
        while i < screens.len()
            invariant
                v == views(screens@),
                k < ips@.len(),
                ip == ips@[k as int],
                i <= v.len(),
                forall|k2: int, j: int|
                    0 <= k2 < k && 0 <= j < v.len() ==> !(#[trigger] v[j].has_ip(ips@[k2])),
                forall|j: int| 0 <= j < i ==> !(#[trigger] v[j].has_ip(ip)),
            decreases v.len() - i,
        {
            let addrs = &screens[i].addrs;
            assert(addrs@ == v[i as int].addrs);
            let mut m: usize = 0;
            while m < addrs.len()
                invariant
                    v == views(screens@),
                    k < ips@.len(),
                    ip == ips@[k as int],
                    i < v.len(),
                    forall|k2: int, j: int|
                        0 <= k2 < k && 0 <= j < v.len() ==> !(#[trigger] v[j].has_ip(ips@[k2])),
                    forall|j: int| 0 <= j < i ==> !(#[trigger] v[j].has_ip(ip)),
                    addrs@ == v[i as int].addrs,
                    m <= addrs@.len(),
                    forall|m2: int| 0 <= m2 < m ==> (#[trigger] addrs@[m2]).ip != ip,
                decreases addrs@.len() - m,
            {
                if addrs[m].ip == ip {
                    proof {
                        assert(v[i as int].addrs[m as int].ip == ip);
                        assert(v[i as int].has_ip(ip));
                        assert(located_at(v, ips@, i as int, k as int));
                        assert(located(v, ips@, i as int));
                        let c = choose|c: int| located(v, ips@, c);
                        let kc = choose|kc: int| located_at(v, ips@, c, kc);
                        lemma_located_unique(v, ips@, i as int, k as int, c, kc);
                    }
                    return Some(i);
                }
                m = m + 1;
            }
            i = i + 1;
        }
        k = k + 1;
    }
    proof {
        assert forall|i: int| !located(v, ips@, i) by {
            if located(v, ips@, i) {
                let kc = choose|kc: int| located_at(v, ips@, i, kc);
                assert(!v[i].has_ip(ips@[kc]));
            }
        }
    }
    None
}

impl Cluster {
    /// Adds a screen to the far right of the cluster.
    fn add(&mut self, new_screen: Screen)
        requires
            screens_wf(old(self)@.screens),
            old(self)@.len() < 256,
            new_screen@.sized(),
        ensures
            final(self)@ == (ClusterView { screens: append(old(self)@.screens, new_screen@), ..old(self)@ }),
            screens_wf(final(self)@.screens),
            final(self)@.local_screen == old(self)@.local_screen,
            final(self)@.focus == old(self)@.focus,
            final(self)@.len() == old(self)@.len() + 1,
            forall|j: int|
                0 <= j < old(self)@.len() ==> (#[trigger] final(self)@.screens[j]).size == old(self)@.screens[j].size,
    {
        let ghost v = self@.screens;
        let n = self.screens.len();
        let mut index: usize = 0;
        let mut fuel: usize = n;
        proof {
            lemma_rightmost_valid(v, 0, v.len());
        }
        while fuel > 0 && self.screens[index].edges.right.is_some()
            invariant
                v == self@.screens,
                n == v.len(),
                screens_wf(v),
                index < n,
                fuel <= n,
                rightmost_from(v, index as int, fuel as nat) == rightmost(v),
            decreases fuel,
        {
            assert(v[index as int].wf(v.len()));
            index = self.screens[index].edges.right.unwrap() as usize;
            fuel = fuel - 1;
        }
        assert(self.screens@[index as int]@ == v[index as int]);
        self.screens[index].edges.right = Some(n as Index);
        let mut s = new_screen;
        s.edges = Edges { top: None, right: None, bottom: None, left: Some(index as Index) };
        self.screens.push(s);
        proof {
            lemma_append_wf(v, new_screen@);
            assert(self@.screens =~= append(v, new_screen@));
        }
    }

    /// Merges in the screens of `other`: a screen that shares an address
    /// with a known one is taken as known and skipped (its contents are not
    /// reconciled); any other is appended as the new rightmost neighbour,
    /// while the cluster has room.
    pub fn merge(&mut self, other: Cluster)
        requires
            old(self)@.wf(),
            other@.wf(),
        ensures
            final(self)@ == old(self)@.merge(other@),
            final(self)@.wf(),
    {
        let ghost others = other@.screens;
        let mut rest = other.screens;
        let mut i: usize = 0;
        let ghost n = others.len();
        while rest.len() > 0
            invariant
                self@.wf(),
                self@.local_screen == old(self)@.local_screen,
                self@.focus == old(self)@.focus,
                screens_wf(others),
                i <= n,
                n == others.len(),
                rest@.len() + i == n,
                views(rest@) == others.skip(i as int),
                self@.screens == merged(old(self)@.screens, others.take(i as int)),
            decreases rest@.len(),
        {
            let ghost before = rest@;
            let s = rest.remove(0);
            proof {
                assert(views(before)[0] == s@);
                assert(others.skip(i as int)[0] == others[i as int]);
                assert(s@ == others[i as int]);
                assert forall|j: int| 0 <= j < rest@.len() implies #[trigger] views(rest@)[j] == others.skip(
                    i as int + 1,
                )[j] by {
                    assert(rest@[j] == before[j + 1]);
                    assert(views(before)[j + 1] == others.skip(i as int)[j + 1]);
                }
                assert(others[i as int].wf(n));
                assert(others.take(i as int + 1).drop_last() =~= others.take(i as int));
                assert(views(rest@) =~= others.skip(i as int + 1));
            }
            if self.screens.len() < 256 && !knows(&self.screens, &s) {
                self.add(s);
            }
            i = i + 1;
        }
        proof {
            assert(others.take(i as int) =~= others);
        }
    }

    /// Adopts `other` as the cluster, locating this host in it by its
    /// addresses `host_ips` and committing the carried-over focus; the
    /// host-side effects account for whether the local screen held focus
    /// before. When no screen of `other` holds any of `host_ips`, the
    /// cluster is left as it was.
    pub fn replace(&mut self, other: Cluster, host_ips: &Vec<IpAddress>) -> (r: Result<Vec<Action>, NotInCluster>)
        requires
            old(self)@.wf(),
            other@.wf(),
        ensures
            match old(self)@.replace(other@, host_ips@) {
                Some((c, effects)) => r matches Ok(e) && e@ == effects && final(self)@ == c,
                None => r == Err::<Vec<Action>, NotInCluster>(NotInCluster) && final(self)@ == old(self)@,
            },
            final(self)@.wf(),
    {
        match find_local(&other.screens, host_ips) {
            None => Err(NotInCluster),
            Some(i) => {
                let was_focused = self.locally_focused();
                let mut other = other;
                other.local_screen = i as Index;
                let focus = other.focus;
                let effects = other.private_refocus(focus, was_focused);
                *self = other;
                Ok(effects)
            },
        }
    }

    /// Replaces the screen layout, keeping the local screen and committing
    /// the focus against the new layout; none, and nothing changed, unless
    /// the layout is valid and still holds the local and focused screens.
    pub fn set_screens(&mut self, screens: Vec<Screen>) -> (r: Option<Vec<Action>>)
        requires
            old(self)@.wf(),
        ensures
            ({
                let next = ClusterView { screens: views(screens@), ..old(self)@ };
                let ok = screens_wf(next.screens) && next.local_screen < next.len() && next.focus.index
                    < next.len();
                &&& r is Some <==> ok
                &&& ok ==> (r matches Some(e) && (final(self)@, e@) == next.commit(
                    old(self)@.focus,
                    old(self)@.locally_focused(),
                ))
                &&& !ok ==> final(self)@ == old(self)@
            }),
            final(self)@.wf(),
    {
        if !screens_valid(&screens) {
            return None;
        }
        let n = screens.len();
        if (self.local_screen as usize) >= n || (self.focus.index as usize) >= n {
            return None;
        }
        let was_focused = self.locally_focused();
        let focus = self.focus;
        self.screens = screens;
        Some(self.private_refocus(focus, was_focused))
    }
}

proof fn lemma_merged_all_known(screens: Seq<ScreenView>, others: Seq<ScreenView>)
    requires
        forall|j: int| 0 <= j < others.len() ==> known(screens, #[trigger] others[j]),
    ensures
        merged(screens, others) == screens,
    decreases others.len(),
{
    if others.len() > 0 {
        lemma_merged_all_known(screens, others.drop_last());
        assert(known(screens, others[others.len() - 1]));
    }
}

/// Merging a cluster each of whose screens has addresses, all of them
/// already present in this cluster, changes nothing: in particular the
/// number of screens stays the same.
pub proof fn lemma_merge_known_unchanged(c: ClusterView, other: ClusterView)
    requires
        c.wf(),
        other.wf(),
        forall|j: int|
            0 <= j < other.len() ==> (#[trigger] other.screens[j]).addrs.len() > 0 && forall|k: int|
                0 <= k < other.screens[j].addrs.len() ==> exists|i: int|
                    0 <= i < c.len() && c.screens[i].has_ip(#[trigger] other.screens[j].addrs[k].ip),
    ensures
        c.merge(other) == c,
        c.merge(other).len() == c.len(),
{
    assert forall|j: int| 0 <= j < other.len() implies known(c.screens, #[trigger] other.screens[j]) by {
        let s = other.screens[j];
        let i = choose|i: int| 0 <= i < c.len() && c.screens[i].has_ip(s.addrs[0].ip);
        assert(c.screens[i].has_ip(s.addrs[0].ip));
    }
    lemma_merged_all_known(c.screens, other.screens);
}

proof fn lemma_chain_end_open(c: Seq<ScreenView>, i: int, k: nat)
    requires
        screens_wf(c),
        0 <= i < c.len(),
        chain_ends(c, Direction::Right, i, k),
    ensures
        c[rightmost_from(c, i, k)].edges.right is None,
    decreases k,
{
    assert(c[i].wf(c.len()));
    if let Some(j) = c[i].edges.right {
        lemma_chain_end_open(c, j as int, (k - 1) as nat);
    }
}

proof fn lemma_append_rightmost(c: Seq<ScreenView>, s: ScreenView, i: int, k: nat)
    requires
        screens_wf(c),
        c.len() < 256,
        0 <= i < c.len(),
        chain_ends(c, Direction::Right, i, k),
        rightmost_from(c, i, k) == rightmost(c),
    ensures
        rightmost_from(append(c, s), i, k + 1) == c.len(),
    decreases k,
{
    let m = append(c, s);
    let r = rightmost(c);
    assert(c[i].wf(c.len()));
    lemma_rightmost_valid(c, 0, c.len());
    lemma_chain_end_open(c, i, k);
    assert(m.len() == c.len() + 1);
    match c[i].edges.right {
        Some(j) => {
            assert(i != r);
            assert(m[i] == c[i]);
            lemma_append_rightmost(c, s, j as int, (k - 1) as nat);
        },
        None => {
            assert(i == r);
            assert(m[i].edges.right == Some(c.len() as Index));
            assert(m[c.len() as int].edges.right is None);
            assert(rightmost_from(m, c.len() as int, k) == c.len());
        },
    }
}

/// Merging a cluster of one screen none of whose addresses is known
/// appends exactly that screen: it becomes the right neighbour of the
/// previous rightmost screen, which becomes its left neighbour, and every
/// other screen stays as it was. Where the chain of right edges from the
/// first screen runs in no circle, the new screen ends that chain.
pub proof fn lemma_merge_unknown_appends(c: ClusterView, other: ClusterView)
    requires
        c.wf(),
        other.wf(),
        c.len() < 256,
        other.len() == 1,
        !known(c.screens, other.screens[0]),
    ensures
        ({
            let m = c.merge(other).screens;
            let r = rightmost(c.screens);
            &&& 0 <= r < c.len()
            &&& m.len() == c.len() + 1
            &&& m[r].edges.right == Some(c.len() as Index)
            &&& m[c.len() as int].edges.left == Some(r as Index)
            &&& m[c.len() as int].addrs == other.screens[0].addrs
            &&& m[c.len() as int].size == other.screens[0].size
            &&& m[r].size == c.screens[r].size
            &&& forall|j: int| 0 <= j < c.len() && j != r ==> m[j] == c.screens[j]
            &&& chain_ends(c.screens, Direction::Right, 0, c.len()) ==> rightmost(m) == c.len()
        }),
{
    lemma_rightmost_valid(c.screens, 0, c.len());
    assert(other.screens.drop_last() =~= Seq::<ScreenView>::empty());
    assert(merged(c.screens, other.screens.drop_last()) == c.screens);
    if chain_ends(c.screens, Direction::Right, 0, c.len()) {
        lemma_append_rightmost(c.screens, other.screens[0], 0, c.len());
    }
}

} // verus!
