//! The bidirectional routing table between linked rooms.
//!
//! Discovery hands over a list of validated room pairs; the table is built
//! once from it, before the live event handler is attached, and is read-only
//! afterwards. Its view is a symmetric map from a room identifier to the
//! identifier of its linked counterpart: if A maps to B then B maps to A. A
//! room may appear in at most one pair; a pair linking a room to itself is
//! the degenerate echo mode and is kept as a single self-entry.

use vstd::prelude::*;
use vstd::string::*;

verus! {

/// Whether a room identifier occurs in a list of known rooms.
pub open spec fn known_contains(known: Seq<String>, x: Seq<char>) -> bool {
    exists|i: int| 0 <= i < known.len() && (#[trigger] known[i])@ == x
}

/// The symmetric map a list of room pairs denotes: each pair contributes
/// both directions.
pub open spec fn table_of(pairs: Seq<(String, String)>) -> Map<Seq<char>, Seq<char>>
    decreases pairs.len(),
{
    if pairs.len() == 0 {
        Map::empty()
    } else {
        table_of(pairs.drop_last()).insert(pairs.last().0@, pairs.last().1@).insert(
            pairs.last().1@,
            pairs.last().0@,
        )
    }
}

/// No room identifier occurs in two distinct pairs (either slot); within one
/// pair the two slots may coincide (a room linked to itself).
pub open spec fn pairs_disjoint(pairs: Seq<(String, String)>) -> bool {
    forall|i: int, j: int|
        0 <= i < pairs.len() && 0 <= j < pairs.len() && i != j ==> (#[trigger] pairs[i]).0@ != (
        #[trigger] pairs[j]).0@ && pairs[i].0@ != pairs[j].1@ && pairs[i].1@ != pairs[j].0@
            && pairs[i].1@ != pairs[j].1@
}

/// Every room of every pair is locally known (resolvable to a live room).
pub open spec fn pairs_known(pairs: Seq<(String, String)>, known: Seq<String>) -> bool {
    forall|i: int|
        0 <= i < pairs.len() ==> known_contains(known, (#[trigger] pairs[i]).0@) && known_contains(
            known,
            pairs[i].1@,
        )
}

/// Why the routing table could not be built.
#[derive(Debug)]
pub enum RoutingError {
    /// A discovered room is not locally known: the bot never joined it, so
    /// the pair cannot be resolved to a live room.
    UnknownRoom(String),
    /// A room occurs in more than one pair: a discovery bug, rejected rather
    /// than silently merged.
    DuplicateRoom(String),
}

/// The frozen bidirectional room map consulted on every inbound message.
pub struct RoutingTable {
    pairs: Vec<(String, String)>,
}

impl View for RoutingTable {
    type V = Map<Seq<char>, Seq<char>>;

    closed spec fn view(&self) -> Map<Seq<char>, Seq<char>> {
        table_of(self.pairs@)
    }
}

impl RoutingTable {
    /// The validated pairs the table was built from.
    pub closed spec fn spec_pairs(&self) -> Seq<(String, String)> {
        self.pairs@
    }

    /// Well-formed: built from disjoint pairs, so the map is symmetric.
    pub closed spec fn wf(&self) -> bool {
        pairs_disjoint(self.pairs@)
    }

    /// Build the table from the pairs discovery validated, resolving each
    /// room against the locally known rooms. Fails fast if any room cannot
    /// be resolved or occurs in two pairs: an incomplete table would make
    /// some inbound messages vanish silently.
    pub fn build(pairs: Vec<(String, String)>, known: &Vec<String>) -> (r: Result<
        RoutingTable,
        RoutingError,
    >)
        ensures
            r is Ok <==> (pairs_known(pairs@, known@) && pairs_disjoint(pairs@)),
            r matches Ok(t) ==> t.wf() && t.spec_pairs() == pairs@ && t@ == table_of(pairs@),
            r matches Err(RoutingError::UnknownRoom(x)) ==> !known_contains(known@, x@) && exists|
                i: int,
            |
                0 <= i < pairs@.len() && ((#[trigger] pairs@[i]).0@ == x@ || pairs@[i].1@ == x@),
            r matches Err(RoutingError::DuplicateRoom(x)) ==> exists|i: int, j: int|
                0 <= i < pairs@.len() && 0 <= j < pairs@.len() && i != j && ((
                #[trigger] pairs@[i]).0@ == x@ || pairs@[i].1@ == x@) && ((
                #[trigger] pairs@[j]).0@ == x@ || pairs@[j].1@ == x@),
    {
        let n = pairs.len();
        let mut k: usize = 0;
        while k < n
            invariant
                n == pairs@.len(),
                0 <= k <= n,
                forall|i: int|
                    0 <= i < k ==> known_contains(known@, (#[trigger] pairs@[i]).0@)
                        && known_contains(known@, pairs@[i].1@),
                forall|i: int, j: int|
                    0 <= i < k && 0 <= j < k && i != j ==> (#[trigger] pairs@[i]).0@ != (
                    #[trigger] pairs@[j]).0@ && pairs@[i].0@ != pairs@[j].1@ && pairs@[i].1@
                        != pairs@[j].0@ && pairs@[i].1@ != pairs@[j].1@,
            decreases n - k,
        {
            let a = &pairs[k].0;
            let b = &pairs[k].1;
            if !contains_room(known, a) {
                let x = a.clone();
                proof {
                    assert(0 <= k < pairs@.len() && (pairs@[k as int].0@ == x@ || pairs@[k as int].1@
                        == x@));
                }
                return Err(RoutingError::UnknownRoom(x));
            }
            if !contains_room(known, b) {
                let x = b.clone();
                proof {
                    assert(0 <= k < pairs@.len() && (pairs@[k as int].0@ == x@ || pairs@[k as int].1@
                        == x@));
                }
                return Err(RoutingError::UnknownRoom(x));
            }
            let mut j: usize = 0;
            while j < k
                invariant
                    n == pairs@.len(),
                    0 <= j <= k < n,
                    forall|i: int|
                        0 <= i < j ==> (#[trigger] pairs@[i]).0@ != pairs@[k as int].0@
                            && pairs@[i].0@ != pairs@[k as int].1@ && pairs@[i].1@
                            != pairs@[k as int].0@ && pairs@[i].1@ != pairs@[k as int].1@,
                decreases k - j,
            {
                let dup_a = pairs[j].0 == pairs[k].0 || pairs[j].1 == pairs[k].0;
                let dup_b = pairs[j].0 == pairs[k].1 || pairs[j].1 == pairs[k].1;
                if dup_a || dup_b {
                    let x = if dup_a {
                        pairs[k].0.clone()
                    } else {
                        pairs[k].1.clone()
                    };
                    proof {
                        assert(0 <= j < pairs@.len() && (pairs@[j as int].0@ == x@
                            || pairs@[j as int].1@ == x@));
                        assert(0 <= k < pairs@.len() && (pairs@[k as int].0@ == x@
                            || pairs@[k as int].1@ == x@));
                        assert(!pairs_disjoint(pairs@));
                    }
                    return Err(RoutingError::DuplicateRoom(x));
                }
                j += 1;
            }
            k += 1;
        }
        Ok(RoutingTable { pairs })
    }

    /// Whether a room is part of some link.
    pub fn contains(&self, room: &String) -> (r: bool)
        requires
            self.wf(),
        ensures
            r == self@.contains_key(room@),
    {
        proof {
            lemma_table_of_props(self.pairs@);
        }
        let n = self.pairs.len();
        let mut k: usize = 0;
        while k < n
            invariant
                self.wf(),
                n == self.pairs@.len(),
                0 <= k <= n,
                forall|i: int|
                    0 <= i < k ==> (#[trigger] self.pairs@[i]).0@ != room@ && self.pairs@[i].1@
                        != room@,
            decreases n - k,
        {
            if self.pairs[k].0 == *room || self.pairs[k].1 == *room {
                proof {
                    lemma_table_of_props(self.pairs@);
                    let p = self.pairs@[k as int];
                    assert(self@.contains_key(p.0@) && self@.contains_key(p.1@));
                }
                return true;
            }
            k += 1;
        }
        false
    }

    /// The linked counterpart of a room, if the room is part of some link.
    pub fn lookup(&self, room: &String) -> (r: Option<&String>)
        requires
            self.wf(),
        ensures
            match r {
                Some(dest) => self@.contains_key(room@) && dest@ == self@[room@],
                None => !self@.contains_key(room@),
            },
    {
        proof {
            lemma_table_of_props(self.pairs@);
        }
        let n = self.pairs.len();
        let mut k: usize = 0;
        while k < n
            invariant
                self.wf(),
                n == self.pairs@.len(),
                0 <= k <= n,
                forall|i: int|
                    0 <= i < k ==> (#[trigger] self.pairs@[i]).0@ != room@ && self.pairs@[i].1@
                        != room@,
            decreases n - k,
        {
            if self.pairs[k].0 == *room {
                proof {
                    lemma_table_of_props(self.pairs@);
                    let p = self.pairs@[k as int];
                    assert(self@.contains_key(p.0@) && self@[p.0@] == p.1@);
                }
                return Some(&self.pairs[k].1);
            }
            if self.pairs[k].1 == *room {
                proof {
                    lemma_table_of_props(self.pairs@);
                    let p = self.pairs@[k as int];
                    assert(self@.contains_key(p.1@) && self@[p.1@] == p.0@);
                }
                return Some(&self.pairs[k].0);
            }
            k += 1;
        }
        None
    }

    /// The number of directed links the table answers for.
    pub fn len(&self) -> (r: usize)
        ensures
            r == self.spec_pairs().len(),
    {
        self.pairs.len()
    }
}

/// What the symmetric map of a disjoint pair list holds: exactly the rooms
/// of the pairs, each mapped to its counterpart.
pub proof fn lemma_table_of_props(pairs: Seq<(String, String)>)
    requires
        pairs_disjoint(pairs),
    ensures
        forall|i: int|
            0 <= i < pairs.len() ==> table_of(pairs).contains_key((#[trigger] pairs[i]).0@)
                && table_of(pairs).contains_key(pairs[i].1@) && table_of(pairs)[pairs[i].0@]
                == pairs[i].1@ && table_of(pairs)[pairs[i].1@] == pairs[i].0@,
        forall|k: Seq<char>|
            #[trigger] table_of(pairs).contains_key(k) ==> exists|i: int|
                0 <= i < pairs.len() && ((#[trigger] pairs[i]).0@ == k || pairs[i].1@ == k),
    decreases pairs.len(),
{
    if pairs.len() > 0 {
        let head = pairs.drop_last();
        let last = pairs.last();
        let m = table_of(pairs);
        let hm = table_of(head);
        assert(forall|i: int| 0 <= i < head.len() ==> #[trigger] head[i] == pairs[i]);
        assert(pairs_disjoint(head)) by {
            assert forall|i: int, j: int|
                0 <= i < head.len() && 0 <= j < head.len() && i != j implies (
            #[trigger] head[i]).0@ != (#[trigger] head[j]).0@ && head[i].0@ != head[j].1@
                && head[i].1@ != head[j].0@ && head[i].1@ != head[j].1@ by {
                assert(pairs[i] == head[i] && pairs[j] == head[j]);
            }
        }
        lemma_table_of_props(head);
        assert forall|i: int|
            0 <= i < pairs.len() implies m.contains_key((#[trigger] pairs[i]).0@)
            && m.contains_key(pairs[i].1@) && m[pairs[i].0@] == pairs[i].1@ && m[pairs[i].1@]
            == pairs[i].0@ by {
            if i < pairs.len() - 1 {
                // The last pair's rooms differ from every room of an earlier
                // pair, so the two inserts leave those entries alone.
                assert(pairs[i] == head[i]);
                assert(last.0@ != pairs[i].0@ && last.0@ != pairs[i].1@ && last.1@ != pairs[i].0@
                    && last.1@ != pairs[i].1@);
            } else {
                assert(pairs[i] == last);
            }
        }
        assert forall|k: Seq<char>| #[trigger] m.contains_key(k) implies exists|i: int|
            0 <= i < pairs.len() && ((#[trigger] pairs[i]).0@ == k || pairs[i].1@ == k) by {
            if k == last.0@ || k == last.1@ {
                assert(0 <= pairs.len() - 1 < pairs.len() && (pairs[pairs.len() - 1].0@ == k
                    || pairs[pairs.len() - 1].1@ == k));
            } else {
                assert(hm.contains_key(k));
                let i = choose|i: int|
                    0 <= i < head.len() && ((#[trigger] head[i]).0@ == k || head[i].1@ == k);
                assert(0 <= i < pairs.len() && (pairs[i].0@ == k || pairs[i].1@ == k));
            }
        }
    }
}

/// Symmetry of the routing table: the destination of every linked room is
/// itself linked, and following a link twice leads back to the room one
/// started from.
pub proof fn lemma_table_symmetric(t: &RoutingTable)
    requires
        t.wf(),
    ensures
        forall|a: Seq<char>|
            #[trigger] t@.contains_key(a) ==> t@.contains_key(t@[a]) && t@[t@[a]] == a,
{
    lemma_table_of_props(t.spec_pairs());
    assert forall|a: Seq<char>| #[trigger] t@.contains_key(a) implies t@.contains_key(t@[a])
        && t@[t@[a]] == a by {
        let i = choose|i: int|
            0 <= i < t.spec_pairs().len() && ((#[trigger] t.spec_pairs()[i]).0@ == a
                || t.spec_pairs()[i].1@ == a);
    }
}

/// Whether a room identifier occurs in a list of known rooms.
fn contains_room(v: &Vec<String>, x: &String) -> (r: bool)
    ensures
        r == known_contains(v@, x@),
{
    let n = v.len();
    let mut k: usize = 0;
    while k < n
        invariant
            n == v@.len(),
            0 <= k <= n,
            forall|i: int| 0 <= i < k ==> (#[trigger] v@[i])@ != x@,
        decreases n - k,
    {
        if v[k] == *x {
            return true;
        }
        k += 1;
    }
    false
}

} // verus!
