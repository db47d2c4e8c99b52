use vstd::prelude::*;
use vstd::std_specs::vec::axiom_vec_index_decreases;
use vstd::std_specs::vec::axiom_vec_decreases_to_view;

verus! {

broadcast use {axiom_vec_index_decreases, axiom_vec_decreases_to_view};

/// A server and, beneath it, the servers reachable through each of its peers.
/// The tree is rooted at the local server.
#[derive(Debug)]
pub struct Server {
    pub name: String,
    pub connected_servers: Vec<Server>,
}

/// Whether a server of that name is `node` or lies beneath it.
pub open spec fn in_tree(node: Server, name: Seq<char>) -> bool
    decreases node, 2int, 0int,
{
    node.name@ == name || reach_from(node, 0, name)
}

/// Whether a server of that name is one of the peers of `node` from the `i`-th
/// on, or lies beneath one of them.
pub open spec fn reach_from(node: Server, i: int, name: Seq<char>) -> bool
    decreases node, 1int, node.connected_servers@.len() - i,
{
    if 0 <= i < node.connected_servers@.len() {
        in_tree(node.connected_servers@[i], name) || reach_from(node, i + 1, name)
    } else {
        false
    }
}

/// Whether a server of that name lies beneath `node` (not `node` itself).
pub open spec fn reachable(node: Server, name: Seq<char>) -> bool {
    reach_from(node, 0, name)
}

/// The position of the first peer of `node`, from the `i`-th on, that is the
/// named server or leads to it; -1 when none does.
pub open spec fn route_from(node: Server, i: int, name: Seq<char>) -> int
    decreases node.connected_servers@.len() - i,
{
    if i < 0 || i >= node.connected_servers@.len() {
        -1
    } else if in_tree(node.connected_servers@[i], name) {
        i
    } else {
        route_from(node, i + 1, name)
    }
}

/// `reach_from` is an existential over the peers from the `k`-th on.
pub proof fn lemma_reach_exists(node: Server, k: int, name: Seq<char>)
    requires
        0 <= k,
    ensures
        reach_from(node, k, name) <==> exists|j: int| k <= j < node.connected_servers@.len() && #[trigger] in_tree(node.connected_servers@[j], name),
    decreases node.connected_servers@.len() - k,
{
    if k < node.connected_servers@.len() {
        lemma_reach_exists(node, k + 1, name);
        assert(reach_from(node, k, name) == (in_tree(node.connected_servers@[k], name) || reach_from(node, k + 1, name)));
        if exists|j: int| k <= j < node.connected_servers@.len() && #[trigger] in_tree(node.connected_servers@[j], name) {
            let j = choose|j: int| k <= j < node.connected_servers@.len() && #[trigger] in_tree(node.connected_servers@[j], name);
            if j > k {
                assert(k + 1 <= j < node.connected_servers@.len() && in_tree(node.connected_servers@[j], name));
            }
        }
    } else {
        assert(!reach_from(node, k, name));
    }
}

/// What lies beneath `node`, as an existential over its peers.
pub proof fn lemma_reachable_exists(node: Server, name: Seq<char>)
    ensures
        reachable(node, name) <==> exists|j: int| 0 <= j < node.connected_servers@.len() && #[trigger] in_tree(node.connected_servers@[j], name),
{
    lemma_reach_exists(node, 0, name);
}

/// `new` is `old` with the subtree `t` cut off, at the place the positions of
/// `path` lead to: each position but the last picks a peer to descend into,
/// the last one the peer that is removed.
pub open spec fn removed_at(old: Server, new: Server, t: Server, path: Seq<int>) -> bool
    decreases path.len(),
{
    if path.len() == 0 {
        false
    } else {
        let i = path[0];
        &&& 0 <= i < old.connected_servers@.len()
        &&& new.name == old.name
        &&& if path.len() == 1 {
            old.connected_servers@[i] == t && new.connected_servers@ == old.connected_servers@.remove(i)
        } else {
            &&& new.connected_servers@.len() == old.connected_servers@.len()
            &&& new.connected_servers@ == old.connected_servers@.update(i, new.connected_servers@[i])
            &&& removed_at(old.connected_servers@[i], new.connected_servers@[i], t, path.drop_first())
        }
    }
}

/// `new` is `old` with a new server named `child`, with no peers, placed last
/// beneath the server named `parent`, at the place the positions of `path` lead
/// to: each position but the last picks a peer to descend into, the last one
/// the peer named `parent`.
pub open spec fn attached_at(old: Server, new: Server, parent: Seq<char>, child: Seq<char>, path: Seq<int>) -> bool
    decreases path.len(),
{
    if path.len() == 0 {
        false
    } else {
        let i = path[0];
        let o = old.connected_servers@;
        let n = new.connected_servers@;
        &&& 0 <= i < o.len()
        &&& new.name == old.name
        &&& n.len() == o.len()
        &&& n == o.update(i, n[i])
        &&& if path.len() == 1 {
            &&& o[i].name@ == parent
            &&& n[i].name == o[i].name
            &&& n[i].connected_servers@.len() == o[i].connected_servers@.len() + 1
            &&& n[i].connected_servers@ == o[i].connected_servers@.push(n[i].connected_servers@.last())
            &&& n[i].connected_servers@.last().name@ == child
            &&& n[i].connected_servers@.last().connected_servers@.len() == 0
        } else {
            attached_at(o[i], n[i], parent, child, path.drop_first())
        }
    }
}

/// `new` is `old` with the subtree `t` cut off somewhere beneath it.
pub open spec fn cut_off(old: Server, new: Server, t: Server) -> bool {
    exists|path: Seq<int>| #[trigger] removed_at(old, new, t, path)
}

/// `new` is `old` with a new server `child` placed beneath a server named `parent`.
pub open spec fn hung_under(old: Server, new: Server, parent: Seq<char>, child: Seq<char>) -> bool {
    exists|path: Seq<int>| #[trigger] attached_at(old, new, parent, child, path)
}

impl Server {
    /// A server with no name and no peers.
    pub fn new() -> (r: Server)
        ensures
            r.name@.len() == 0,
            r.connected_servers@.len() == 0,
    {
        Server { name: String::new(), connected_servers: Vec::new() }
    }

    /// Names the server.
    pub fn set_name(&mut self, sv_name: String)
        ensures
            final(self).name == sv_name,
            final(self).connected_servers == old(self).connected_servers,
    {
        self.name = sv_name;
    }

    /// A server of that name with no peers.
    pub fn leaf(name: String) -> (r: Server)
        ensures
            r.name == name,
            r.connected_servers@.len() == 0,
    {
        let mut r = Server::new();
        r.set_name(name);
        r
    }

    /// Whether a server of that name is reachable through the peers.
    pub fn is_connected_to(&self, servername: &String) -> (r: bool)
        ensures
            r == reachable(*self, servername@),
        decreases *self,
    {
        let mut i: usize = 0;
        while i < self.connected_servers.len()
            invariant
                i <= self.connected_servers@.len(),
                reachable(*self, servername@) == reach_from(*self, i as int, servername@),
            decreases self.connected_servers@.len() - i,
        {
            let peer = &self.connected_servers[i];
            assert(decreases_to!(*self => self.connected_servers));
            assert(decreases_to!(self.connected_servers => self.connected_servers[i as int]));
            assert(reach_from(*self, i as int, servername@)
                == (in_tree(*peer, servername@) || reach_from(*self, i + 1, servername@)));
            assert(in_tree(*peer, servername@) == (peer.name@ == servername@ || reachable(*peer, servername@)));
            if peer.name == *servername {
                return true;
            }
            if peer.is_connected_to(servername) {
                return true;
            }
            i = i + 1;
        }
        false
    }

    /// The position of the first peer through which the named server is reached:
    /// the peer itself or a server beneath it.
    pub fn route_to(&self, servername: &String) -> (r: Option<usize>)
        ensures
            match r {
                Some(i) => route_from(*self, 0, servername@) == i && i < self.connected_servers@.len(),
                None => route_from(*self, 0, servername@) == -1,
            },
    {
        let mut i: usize = 0;
        while i < self.connected_servers.len()
            invariant
                i <= self.connected_servers@.len(),
                route_from(*self, 0, servername@) == route_from(*self, i as int, servername@),
            decreases self.connected_servers@.len() - i,
        {
            let peer = &self.connected_servers[i];
            assert(in_tree(*peer, servername@) == (peer.name@ == servername@ || reachable(*peer, servername@)));
            if peer.name == *servername || peer.is_connected_to(servername) {
                return Some(i);
            }
            i = i + 1;
        }
        None
    }

    /// Places a new server with no peers beneath the server named `parent`, found
    /// among the peers first and then beneath each of them in order; returns
    /// whether `parent` was found.
    pub fn attach_server(&mut self, parent: &String, child: String) -> (r: bool)
        ensures
            r == reachable(*old(self), parent@),
            !r ==> *final(self) == *old(self),
            final(self).name == old(self).name,
            forall|x: Seq<char>| #[trigger] reachable(*final(self), x)
                <==> (reachable(*old(self), x) || (r && x == child@)),
            r ==> hung_under(*old(self), *final(self), parent@, child@),
        decreases *old(self),
    {
        let ghost start = *self;
        let ghost cname = child@;
        let mut i: usize = 0;
        while i < self.connected_servers.len()
            invariant
                i <= self.connected_servers@.len(),
                *self == start,
                start == *old(self),
                child@ == cname,
                forall|j: int| 0 <= j < i ==> self.connected_servers@[j].name@ != parent@,
            decreases self.connected_servers@.len() - i,
        {
            if self.connected_servers[i].name == *parent {
                let mut p = self.connected_servers.remove(i);
                let ghost p0 = p;
                let leaf = Server::leaf(child);
                let ghost leaf0 = leaf;
                p.connected_servers.push(leaf);
                self.connected_servers.insert(i, p);
                proof {
                    assert(self.connected_servers@ =~= start.connected_servers@.update(i as int, p));
                    assert(in_tree(start.connected_servers@[i as int], parent@));
                    lemma_reachable_exists(start, parent@);
                    assert forall|x: Seq<char>| #[trigger] in_tree(p, x) <==> (in_tree(p0, x) || x == cname) by {
                        lemma_reachable_exists(p, x);
                        lemma_reachable_exists(p0, x);
                        lemma_reachable_exists(leaf0, x);
                        assert(in_tree(p, x) == (p.name@ == x || reachable(p, x)));
                        assert(in_tree(p0, x) == (p0.name@ == x || reachable(p0, x)));
                        assert(in_tree(leaf0, x) == (leaf0.name@ == x || reachable(leaf0, x)));
                        if x == cname {
                            assert(p.connected_servers@[p.connected_servers@.len() - 1] == leaf0);
                        }
                        if reachable(p, x) {
                            let j = choose|j: int| 0 <= j < p.connected_servers@.len() && #[trigger] in_tree(p.connected_servers@[j], x);
                            if j < p0.connected_servers@.len() {
                                assert(p.connected_servers@[j] == p0.connected_servers@[j]);
                            }
                        }
                        if reachable(p0, x) {
                            let j = choose|j: int| 0 <= j < p0.connected_servers@.len() && #[trigger] in_tree(p0.connected_servers@[j], x);
                            assert(p.connected_servers@[j] == p0.connected_servers@[j]);
                        }
                    }
                    assert forall|x: Seq<char>| #[trigger] reachable(*self, x)
                        <==> (reachable(start, x) || x == cname) by {
                        lemma_reachable_exists(*self, x);
                        lemma_reachable_exists(start, x);
                        if reachable(*self, x) {
                            let j = choose|j: int| 0 <= j < self.connected_servers@.len() && #[trigger] in_tree(self.connected_servers@[j], x);
                            if j != i {
                                assert(self.connected_servers@[j] == start.connected_servers@[j]);
                            }
                        }
                        if reachable(start, x) {
                            let j = choose|j: int| 0 <= j < start.connected_servers@.len() && #[trigger] in_tree(start.connected_servers@[j], x);
                            if j != i {
                                assert(self.connected_servers@[j] == start.connected_servers@[j]);
                            } else {
                                assert(in_tree(self.connected_servers@[j], x));
                            }
                        }
                        if x == cname {
                            assert(in_tree(self.connected_servers@[i as int], x));
                        }
                    }
                    let path = seq![i as int];
                    assert(p.name == p0.name);
                    assert(p.connected_servers@ =~= p0.connected_servers@.push(leaf0));
                    assert(self.connected_servers@[i as int] == p);
                    assert(attached_at(start, *self, parent@, cname, path));
                    assert(hung_under(start, *self, parent@, cname));
                }
                return true;
            }
            i = i + 1;
        }
        let mut i: usize = 0;
        while i < self.connected_servers.len()
            invariant
                i <= self.connected_servers@.len(),
                *self == start,
                start == *old(self),
                child@ == cname,
                forall|j: int| 0 <= j < self.connected_servers@.len() ==> self.connected_servers@[j].name@ != parent@,
                forall|j: int| 0 <= j < i ==> !reachable(#[trigger] self.connected_servers@[j], parent@),
            decreases self.connected_servers@.len() - i,
        {
            if self.connected_servers[i].is_connected_to(parent) {
                let mut c = self.connected_servers.remove(i);
                let ghost c0 = c;
                assert(c == start.connected_servers@[i as int]);
                assert(decreases_to!(start => c));
                let found = c.attach_server(parent, child);
                self.connected_servers.insert(i, c);
                proof {
                    assert(self.connected_servers@ =~= start.connected_servers@.update(i as int, c));
                    assert(in_tree(c0, parent@) == (c0.name@ == parent@ || reachable(c0, parent@)));
                    lemma_reachable_exists(start, parent@);
                    assert forall|x: Seq<char>| #[trigger] reachable(*self, x)
                        <==> (reachable(start, x) || x == cname) by {
                        lemma_reachable_exists(*self, x);
                        lemma_reachable_exists(start, x);
                        assert(in_tree(c, x) == (c.name@ == x || reachable(c, x)));
                        assert(in_tree(c0, x) == (c0.name@ == x || reachable(c0, x)));
                        if reachable(*self, x) {
                            let j = choose|j: int| 0 <= j < self.connected_servers@.len() && #[trigger] in_tree(self.connected_servers@[j], x);
                            if j != i {
                                assert(self.connected_servers@[j] == start.connected_servers@[j]);
                            }
                        }
                        if reachable(start, x) {
                            let j = choose|j: int| 0 <= j < start.connected_servers@.len() && #[trigger] in_tree(start.connected_servers@[j], x);
                            if j != i {
                                assert(self.connected_servers@[j] == start.connected_servers@[j]);
                            } else {
                                assert(in_tree(self.connected_servers@[j], x));
                            }
                        }
                        if x == cname {
                            assert(in_tree(self.connected_servers@[i as int], x));
                        }
                    }
                    if found {
                        assert(hung_under(c0, c, parent@, cname));
                        let q = choose|q: Seq<int>| #[trigger] attached_at(c0, c, parent@, cname, q);
                        let path = seq![i as int] + q;
                        assert(path.drop_first() =~= q);
                        assert(self.connected_servers@[i as int] == c);
                        assert(attached_at(start, *self, parent@, cname, path));
                        assert(hung_under(start, *self, parent@, cname));
                    }
                }
                return found;
            }
            i = i + 1;
        }
        proof {
            lemma_reachable_exists(start, parent@);
            if reachable(start, parent@) {
                let j = choose|j: int| 0 <= j < start.connected_servers@.len() && #[trigger] in_tree(start.connected_servers@[j], parent@);
                assert(in_tree(start.connected_servers@[j], parent@) == (start.connected_servers@[j].name@ == parent@ || reachable(start.connected_servers@[j], parent@)));
            }
        }
        false
    }

    /// Detaches and returns the first server of that name found beneath this one,
    /// searching each peer and then what lies beneath it, in order.
    pub fn remove_server(&mut self, servername: &String) -> (r: Option<Server>)
        ensures
            r is Some ==> r->0.name@ == servername@,
            r is None <==> !reachable(*old(self), servername@),
            r is None ==> *final(self) == *old(self),
            final(self).name == old(self).name,
            forall|x: Seq<char>| #[trigger] reachable(*final(self), x) ==> reachable(*old(self), x),
            r is Some ==> forall|x: Seq<char>| #[trigger] in_tree(r->0, x) ==> reachable(*old(self), x),
            r is Some ==> cut_off(*old(self), *final(self), r->0),
        decreases *old(self),
    {
        let ghost start = *self;
        let mut i: usize = 0;
        while i < self.connected_servers.len()
            invariant
                i <= self.connected_servers@.len(),
                *self == start,
                start == *old(self),
                reachable(start, servername@) == reach_from(start, i as int, servername@),
            decreases self.connected_servers@.len() - i,
        {
            assert(decreases_to!(start => start.connected_servers));
            assert(decreases_to!(start.connected_servers => start.connected_servers[i as int]));
            let ghost peer = self.connected_servers@[i as int];
            assert(reach_from(start, i as int, servername@)
                == (in_tree(peer, servername@) || reach_from(start, i + 1, servername@)));
            assert(in_tree(peer, servername@) == (peer.name@ == servername@ || reachable(peer, servername@)));
            if self.connected_servers[i].name == *servername {
                let t = self.connected_servers.remove(i);
                proof {
                    assert forall|x: Seq<char>| #[trigger] reachable(*self, x) implies reachable(start, x) by {
                        lemma_reachable_exists(*self, x);
                        lemma_reachable_exists(start, x);
                        let j = choose|j: int| 0 <= j < self.connected_servers@.len() && #[trigger] in_tree(self.connected_servers@[j], x);
                        if j < i {
                            assert(self.connected_servers@[j] == start.connected_servers@[j]);
                        } else {
                            assert(self.connected_servers@[j] == start.connected_servers@[j + 1]);
                        }
                    }
                    assert forall|x: Seq<char>| #[trigger] in_tree(t, x) implies reachable(start, x) by {
                        lemma_reachable_exists(start, x);
                        assert(in_tree(start.connected_servers@[i as int], x));
                    }
                    assert(removed_at(start, *self, t, seq![i as int]));
                    assert(exists|path: Seq<int>| #[trigger] removed_at(start, *self, t, path));
                }
                return Some(t);
            }
            if self.connected_servers[i].is_connected_to(servername) {
                let mut child = self.connected_servers.remove(i);
                assert(child == start.connected_servers@[i as int]);
                assert(decreases_to!(start => child));
                let ghost child0 = child;
                let found = child.remove_server(servername);
                self.connected_servers.insert(i, child);
                proof {
                    assert(self.connected_servers@ =~= start.connected_servers@.update(i as int, child));
                    assert forall|x: Seq<char>| #[trigger] reachable(*self, x) implies reachable(start, x) by {
                        lemma_reachable_exists(*self, x);
                        lemma_reachable_exists(start, x);
                        let j = choose|j: int| 0 <= j < self.connected_servers@.len() && #[trigger] in_tree(self.connected_servers@[j], x);
                        if j == i {
                            assert(in_tree(child, x) == (child.name@ == x || reachable(child, x)));
                            assert(in_tree(child0, x) == (child0.name@ == x || reachable(child0, x)));
                            assert(in_tree(start.connected_servers@[j], x));
                        } else {
                            assert(self.connected_servers@[j] == start.connected_servers@[j]);
                        }
                    }
                    assert forall|x: Seq<char>| #[trigger] in_tree(found->0, x) implies reachable(start, x) by {
                        lemma_reachable_exists(start, x);
                        assert(in_tree(child0, x) == (child0.name@ == x || reachable(child0, x)));
                        assert(in_tree(start.connected_servers@[i as int], x));
                    }
                    assert(cut_off(child0, child, found->0));
                    let q = choose|q: Seq<int>| #[trigger] removed_at(child0, child, found->0, q);
                    let path = seq![i as int] + q;
                    assert(path.drop_first() =~= q);
                    assert(self.connected_servers@[i as int] == child);
                    assert(removed_at(start, *self, found->0, path));
                    assert(cut_off(start, *self, found->0));
                }
                return found;
            }
            i = i + 1;
        }
        None
    }
}

} // verus!
