//! Room discovery: pairing tagged rooms with their counterparts.
//!
//! The directory is searched for rooms whose display name carries the link
//! tag; for each such room the counterpart name is derived by stripping the
//! trailing tag token, and a second directory search for that name yields
//! candidates. Too many candidates, or a truncated result page, makes the
//! match ambiguous and the room is skipped rather than guessed; only exact
//! display-name matches are accepted.

use vstd::prelude::*;
use vstd::string::*;

verus! {

/// One row of a public-room directory search: a room identifier and the
/// display name the directory lists for it, if any.
pub struct DirectoryEntry {
    /// The room's globally unique identifier.
    pub room_id: String,
    /// The room's listed display name; a room may have none set.
    pub name: Option<String>,
}

/// The (identifier, name) pairs of the entries that carry a display name, in
/// directory order.
pub open spec fn spec_named_rooms(entries: Seq<DirectoryEntry>) -> Seq<(Seq<char>, Seq<char>)>
    decreases entries.len(),
{
    if entries.len() == 0 {
        Seq::empty()
    } else {
        spec_named_rooms(entries.drop_last()) + (match entries.last().name {
            Some(n) => seq![(entries.last().room_id@, n@)],
            None => Seq::empty(),
        })
    }
}

/// The counterpart name derived from a tagged display name: everything
/// before the last space, which strips the trailing tag token ("Foo (Tor)"
/// becomes "Foo"). A name without a space has no counterpart name.
pub open spec fn spec_counterpart_name(name: Seq<char>) -> Option<Seq<char>>
    decreases name.len(),
{
    if name.len() == 0 {
        None
    } else if name.last() == ' ' {
        Some(name.drop_last())
    } else {
        spec_counterpart_name(name.drop_last())
    }
}

/// Whether a counterpart search result is ambiguous: more rooms than a pair
/// could explain, or more results beyond the returned page.
pub open spec fn spec_ambiguous(count: nat, has_more: bool) -> bool {
    has_more || count > 2
}

/// The identifiers of the entries whose display name equals the target
/// exactly, in directory order.
pub open spec fn spec_exact_matches(entries: Seq<DirectoryEntry>, target: Seq<char>) -> Seq<
    Seq<char>,
>
    decreases entries.len(),
{
    if entries.len() == 0 {
        Seq::empty()
    } else {
        spec_exact_matches(entries.drop_last(), target) + (match entries.last().name {
            Some(n) => if n@ == target {
                seq![entries.last().room_id@]
            } else {
                Seq::empty()
            },
            None => Seq::empty(),
        })
    }
}

/// Harvest the (identifier, name) candidates from a tag-filtered directory
/// search: every returned room that has a display name. Rooms without one
/// cannot be paired by name and are dropped.
pub fn collect_named_rooms(entries: &Vec<DirectoryEntry>) -> (r: Vec<(String, String)>)
    ensures
        r@.map_values(|p: (String, String)| (p.0@, p.1@)) == spec_named_rooms(entries@),
{
    let mut out: Vec<(String, String)> = Vec::new();
    let n = entries.len();
    let mut k: usize = 0;
    while k < n
        invariant
            n == entries@.len(),
            0 <= k <= n,
            out@.map_values(|p: (String, String)| (p.0@, p.1@)) =~= spec_named_rooms(
                entries@.take(k as int),
            ),
        decreases n - k,
    {
        proof {
            assert(entries@.take(k + 1 as int).drop_last() =~= entries@.take(k as int));
            assert(entries@.take(k + 1 as int).last() == entries@[k as int]);
        }
        match &entries[k].name {
            Some(name) => {
                out.push((entries[k].room_id.clone(), name.clone()));
            },
            None => {},
        }
        k += 1;
    }
    proof {
        assert(entries@.take(n as int) =~= entries@);
    }
    out
}

/// Derive the counterpart ("clearnet") name from a tagged display name by
/// stripping the trailing tag token: the part before the last space. Returns
/// nothing when the name holds no space, so no tag token can be split off.
pub fn derive_counterpart_name(name: &String) -> (r: Option<String>)
    ensures
        match r {
            Some(p) => spec_counterpart_name(name@) == Some(p@),
            None => spec_counterpart_name(name@) is None,
        },
{
    let s = name.as_str();
    let n = s.unicode_len();
    proof {
        assert(name@.take(n as int) =~= name@);
    }
    let mut k: usize = n;
    while k > 0
        invariant
            s@ == name@,
            n == name@.len(),
            0 <= k <= n,
            spec_counterpart_name(name@) == spec_counterpart_name(name@.take(k as int)),
        decreases k,
    {
        proof {
            assert(name@.take(k as int).drop_last() =~= name@.take(k - 1));
            assert(name@.take(k as int).last() == name@[k - 1]);
        }
        if s.get_char(k - 1) == ' ' {
            let prefix = s.substring_char(0, k - 1);
            proof {
                assert(prefix@ =~= name@.take(k - 1));
            }
            return Some(String::from_str(prefix));
        }
        k -= 1;
    }
    proof {
        assert(name@.take(0) =~= Seq::<char>::empty());
    }
    None
}

/// From the counterpart directory search for a derived name, pick the rooms
/// accepted as counterparts: none if the result is ambiguous (a truncated
/// page or more than two rooms), otherwise exactly the rooms whose display
/// name equals the derived name.
pub fn select_counterparts(entries: &Vec<DirectoryEntry>, has_more: bool, target: &String) -> (r:
    Vec<String>)
    ensures
        spec_ambiguous(entries@.len(), has_more) ==> r@.len() == 0,
        !spec_ambiguous(entries@.len(), has_more) ==> r@.map_values(|s: String| s@)
            == spec_exact_matches(entries@, target@),
{
    if has_more || entries.len() > 2 {
        return Vec::new();
    }
    let mut out: Vec<String> = Vec::new();
    let n = entries.len();
    let mut k: usize = 0;
    while k < n
        invariant
            n == entries@.len(),
            0 <= k <= n,
            out@.map_values(|s: String| s@) =~= spec_exact_matches(
                entries@.take(k as int),
                target@,
            ),
        decreases n - k,
    {
        proof {
            assert(entries@.take(k + 1 as int).drop_last() =~= entries@.take(k as int));
            assert(entries@.take(k + 1 as int).last() == entries@[k as int]);
        }
        match &entries[k].name {
            Some(name) => {
                if *name == *target {
                    out.push(entries[k].room_id.clone());
                }
            },
            None => {},
        }
        k += 1;
    }
    proof {
        assert(entries@.take(n as int) =~= entries@);
    }
    out
}

} // verus!
