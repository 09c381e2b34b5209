//! The pair bookkeeping behind the listing: indicator updates, favorites
//! and comments, keyed by pair name.  Persisting the table to disk is the
//! caller's business.

use vstd::prelude::*;
use crate::api::PairSnapshot;
use crate::market::icon_url;
use crate::engine::has_usdt_suffix;
use crate::api::str_eq;
use crate::subs::first_str;
use crate::subs::lemma_first_str_is;

verus! {

/// An indicator refresh; absent values leave the stored ones alone.
#[derive(Debug, Clone, Copy)]
pub struct PairUpdate {
    pub mfi_1h: Option<i64>,
    pub mfi_4h: Option<i64>,
    pub mfi_1d: Option<i64>,
    pub mfi_1w: Option<i64>,
}

/// Index of the snapshot for this pair name, or the length.
pub open spec fn first_pair(t: Seq<PairSnapshot>, name: Seq<char>) -> int
    decreases t.len(),
{
    if t.len() == 0 {
        0
    } else if t[0].pair@ == name {
        0
    } else {
        1 + first_pair(t.drop_first(), name)
    }
}

proof fn lemma_first_pair_is(t: Seq<PairSnapshot>, name: Seq<char>, i: int)
    requires
        0 <= i <= t.len(),
        forall|j: int| 0 <= j < i ==> (#[trigger] t[j].pair)@ != name,
        i < t.len() ==> t[i].pair@ == name,
    ensures
        first_pair(t, name) == i,
    decreases i,
{
    if t.len() == 0 {
    } else if i == 0 {
    } else {
        lemma_first_pair_is(t.drop_first(), name, i - 1);
    }
}

/// A snapshot with no indicator data yet.
pub open spec fn fresh_snapshot(b: PairSnapshot, name: Seq<char>, icon: Seq<char>) -> bool {
    &&& b.pair@ == name
    &&& b.icon@ == icon
    &&& b.mfi_1h == 0
    &&& b.mfi_4h == 0
    &&& b.mfi_1d == 0
    &&& b.mfi_1w == 0
    &&& b.is_favorite == false
    &&& b.comments@.len() == 0
}

/// A snapshot created on demand: the default icon, no indicator data, the
/// given favorite flag and comments.
pub open spec fn created_snapshot(
    b: PairSnapshot,
    name: Seq<char>,
    fav: bool,
    comments: Seq<String>,
) -> bool {
    &&& b.pair@ == name
    &&& b.icon@ == default_icon(name)
    &&& b.mfi_1h == 0
    &&& b.mfi_4h == 0
    &&& b.mfi_1d == 0
    &&& b.mfi_1w == 0
    &&& b.is_favorite == fav
    &&& b.comments@ == comments
}

/// The icon a created snapshot gets: its coin under the static icon host.
pub open spec fn default_icon(name: Seq<char>) -> Seq<char> {
    "https://static-app.bb-os.com/icon/"@ + (if has_usdt_suffix(name) {
        name.take(name.len() - 4)
    } else {
        name
    }) + ".png"@
}

/// `b` is `a` refreshed by the update, with the new icon.
pub open spec fn updated_snapshot(
    b: PairSnapshot,
    a: PairSnapshot,
    icon: Seq<char>,
    u: PairUpdate,
) -> bool {
    &&& b.pair@ == a.pair@
    &&& b.icon@ == icon
    &&& b.mfi_1h == (match u.mfi_1h {
        Some(v) => v,
        None => a.mfi_1h,
    })
    &&& b.mfi_4h == (match u.mfi_4h {
        Some(v) => v,
        None => a.mfi_4h,
    })
    &&& b.mfi_1d == (match u.mfi_1d {
        Some(v) => v,
        None => a.mfi_1d,
    })
    &&& b.mfi_1w == (match u.mfi_1w {
        Some(v) => v,
        None => a.mfi_1w,
    })
    &&& b.is_favorite == a.is_favorite
    &&& b.comments@ == a.comments@
}

/// `b` is `a` with only its favorite flag changed.
pub open spec fn same_but_favorite(b: PairSnapshot, a: PairSnapshot, fav: bool) -> bool {
    &&& b.pair@ == a.pair@
    &&& b.icon@ == a.icon@
    &&& b.mfi_1h == a.mfi_1h
    &&& b.mfi_4h == a.mfi_4h
    &&& b.mfi_1d == a.mfi_1d
    &&& b.mfi_1w == a.mfi_1w
    &&& b.is_favorite == fav
    &&& b.comments@ == a.comments@
}

/// `b` is `a` with only its comment list changed.
pub open spec fn same_but_comments(b: PairSnapshot, a: PairSnapshot, comments: Seq<String>) -> bool {
    &&& b.pair@ == a.pair@
    &&& b.icon@ == a.icon@
    &&& b.mfi_1h == a.mfi_1h
    &&& b.mfi_4h == a.mfi_4h
    &&& b.mfi_1d == a.mfi_1d
    &&& b.mfi_1w == a.mfi_1w
    &&& b.is_favorite == a.is_favorite
    &&& b.comments@ == comments
}

/// Copies a list of strings, value for value.
fn clone_strings(v: &Vec<String>) -> (r: Vec<String>)
    ensures
        r@ == v@,
{
    let mut out: Vec<String> = Vec::new();
    let mut i: usize = 0;
    while i < v.len()
        invariant
            0 <= i <= v@.len(),
            out@ == v@.take(i as int),
        decreases v@.len() - i,
    {
        proof {
            assert(v@.take(i + 1) =~= v@.take(i as int).push(v@[i as int]));
        }
        out.push(v[i].clone());
        i = i + 1;
    }
    proof {
        assert(v@.take(v@.len() as int) =~= v@);
    }
    out
}

/// Two snapshots that carry the same data.
pub open spec fn snap_eq(a: PairSnapshot, b: PairSnapshot) -> bool {
    &&& a.pair@ == b.pair@
    &&& a.icon@ == b.icon@
    &&& a.mfi_1h == b.mfi_1h
    &&& a.mfi_4h == b.mfi_4h
    &&& a.mfi_1d == b.mfi_1d
    &&& a.mfi_1w == b.mfi_1w
    &&& a.is_favorite == b.is_favorite
    &&& a.comments@ == b.comments@
}

/// Copies a snapshot, field for field.
fn clone_snapshot(s: &PairSnapshot) -> (r: PairSnapshot)
    ensures
        snap_eq(r, *s),
{
    let r = PairSnapshot {
        icon: s.icon.clone(),
        pair: s.pair.clone(),
        mfi_1h: s.mfi_1h,
        mfi_4h: s.mfi_4h,
        mfi_1d: s.mfi_1d,
        mfi_1w: s.mfi_1w,
        is_favorite: s.is_favorite,
        comments: clone_strings(&s.comments),
    };
    proof {
        assert(r.comments@ == s.comments@);
    }
    r
}

fn fresh_pair(name: &str) -> (r: PairSnapshot)
    ensures
        fresh_snapshot(r, name@, default_icon(name@)),
{
    PairSnapshot::new(name.to_owned(), icon_url(name))
}

/// The tracked pairs, one snapshot per name.
pub struct PairTable {
    pub pairs: Vec<PairSnapshot>,
}

impl PairTable {
    pub fn new() -> (t: PairTable)
        ensures
            t.pairs@.len() == 0,
    {
        PairTable { pairs: Vec::new() }
    }

    /// All snapshots, copied out in order.
    pub fn list_pairs(&self) -> (r: Vec<PairSnapshot>)
        ensures
            r@.len() == self.pairs@.len(),
            forall|i: int|
                0 <= i < r@.len() ==> snap_eq(#[trigger] r@[i], self.pairs@[i]),
    {
        let mut out: Vec<PairSnapshot> = Vec::new();
        let mut i: usize = 0;
        while i < self.pairs.len()
            invariant
                0 <= i <= self.pairs@.len(),
                out@.len() == i,
                forall|j: int|
                    0 <= j < i ==> snap_eq(#[trigger] out@[j], self.pairs@[j]),
            decreases self.pairs@.len() - i,
        {
            out.push(clone_snapshot(&self.pairs[i]));
            i = i + 1;
        }
        out
    }

    /// Refreshes (or creates) a pair's snapshot with new indicator values
    /// and icon.
    pub fn apply_update(&mut self, pair: String, icon: String, update: PairUpdate)
        ensures
            ({
                let a = old(self).pairs@;
                let i = first_pair(a, pair@);
                &&& forall|j: int|
                    0 <= j < a.len() && j != i ==> final(self).pairs@[j] == a[j]
                &&& (if i < a.len() {
                    final(self).pairs@.len() == a.len() && updated_snapshot(
                        final(self).pairs@[i],
                        a[i],
                        icon@,
                        update,
                    )
                } else {
                    final(self).pairs@.len() == a.len() + 1 && ({
                        let b = final(self).pairs@.last();
                        &&& b.pair@ == pair@
                        &&& b.icon@ == icon@
                        &&& b.mfi_1h == (match update.mfi_1h {
                            Some(v) => v,
                            None => 0,
                        })
                        &&& b.mfi_4h == (match update.mfi_4h {
                            Some(v) => v,
                            None => 0,
                        })
                        &&& b.mfi_1d == (match update.mfi_1d {
                            Some(v) => v,
                            None => 0,
                        })
                        &&& b.mfi_1w == (match update.mfi_1w {
                            Some(v) => v,
                            None => 0,
                        })
                        &&& b.is_favorite == false
                        &&& b.comments@.len() == 0
                    })
                })
            }),
    {
        let ghost a = self.pairs@;
        let i = find_pair(&self.pairs, pair.as_str());
        let mut entry = if i < self.pairs.len() {
            self.pairs.remove(i)
        } else {
            PairSnapshot::new(pair, icon.clone())
        };
        entry.icon = icon;
        if let Some(value) = update.mfi_1h {
            entry.mfi_1h = value;
        }
        if let Some(value) = update.mfi_4h {
            entry.mfi_4h = value;
        }
        if let Some(value) = update.mfi_1d {
            entry.mfi_1d = value;
        }
        if let Some(value) = update.mfi_1w {
            entry.mfi_1w = value;
        }
        let ghost snew = entry;
        self.pairs.insert(i, entry);
        proof {
            if i < a.len() {
                assert(self.pairs@ =~= a.update(i as int, snew));
            } else {
                assert(self.pairs@ =~= a.push(snew));
            }
        }
    }

    /// Marks a pair as favorite, creating its snapshot if need be, and
    /// returns the stored snapshot.
    pub fn favorite_pair(&mut self, pair: &str) -> (r: PairSnapshot)
        ensures
            ({
                let a = old(self).pairs@;
                let i = first_pair(a, pair@);
                &&& forall|j: int|
                    0 <= j < a.len() && j != i ==> final(self).pairs@[j] == a[j]
                &&& (if i < a.len() {
                    final(self).pairs@.len() == a.len() && same_but_favorite(
                        final(self).pairs@[i],
                        a[i],
                        true,
                    ) && snap_eq(r, final(self).pairs@[i])
                } else {
                    final(self).pairs@.len() == a.len() + 1 && created_snapshot(
                        final(self).pairs@.last(),
                        pair@,
                        true,
                        Seq::empty(),
                    ) && snap_eq(r, final(self).pairs@.last())
                })
            }),
    {
        let ghost a = self.pairs@;
        let i = find_pair(&self.pairs, pair);
        let mut entry = if i < self.pairs.len() {
            self.pairs.remove(i)
        } else {
            fresh_pair(pair)
        };
        entry.is_favorite = true;
        proof {
            if i >= a.len() {
                assert(entry.comments@ =~= Seq::<String>::empty());
            }
        }
        let r = clone_snapshot(&entry);
        let ghost snew = entry;
        self.pairs.insert(i, entry);
        proof {
            if i < a.len() {
                assert(self.pairs@ =~= a.update(i as int, snew));
            } else {
                assert(self.pairs@ =~= a.push(snew));
            }
        }
        r
    }

    /// Clears a pair's favorite flag; an unknown pair is left alone.
    pub fn unfavorite_pair(&mut self, pair: &str) -> (r: Option<PairSnapshot>)
        ensures
            ({
                let a = old(self).pairs@;
                let i = first_pair(a, pair@);
                &&& forall|j: int|
                    0 <= j < a.len() && j != i ==> final(self).pairs@[j] == a[j]
                &&& (if i < a.len() {
                    final(self).pairs@.len() == a.len() && same_but_favorite(
                        final(self).pairs@[i],
                        a[i],
                        false,
                    ) && (r matches Some(x) && snap_eq(x, final(self).pairs@[i]))
                } else {
                    final(self).pairs@ == a && r is None
                })
            }),
    {
        let ghost a = self.pairs@;
        let i = find_pair(&self.pairs, pair);
        if i == self.pairs.len() {
            return None;
        }
        let mut entry = self.pairs.remove(i);
        entry.is_favorite = false;
        let r = clone_snapshot(&entry);
        let ghost snew = entry;
        self.pairs.insert(i, entry);
        proof {
            assert(self.pairs@ =~= a.update(i as int, snew));
        }
        Some(r)
    }

    /// Appends a comment to a pair, creating its snapshot if need be, and
    /// returns the stored snapshot.
    pub fn add_comment(&mut self, pair: &str, comment: String) -> (r: PairSnapshot)
        ensures
            ({
                let a = old(self).pairs@;
                let i = first_pair(a, pair@);
                &&& forall|j: int|
                    0 <= j < a.len() && j != i ==> final(self).pairs@[j] == a[j]
                &&& (if i < a.len() {
                    final(self).pairs@.len() == a.len() && same_but_comments(
                        final(self).pairs@[i],
                        a[i],
                        a[i].comments@.push(comment),
                    ) && snap_eq(r, final(self).pairs@[i])
                } else {
                    final(self).pairs@.len() == a.len() + 1 && created_snapshot(
                        final(self).pairs@.last(),
                        pair@,
                        false,
                        seq![comment],
                    ) && snap_eq(r, final(self).pairs@.last())
                })
            }),
    {
        let ghost a = self.pairs@;
        let i = find_pair(&self.pairs, pair);
        let mut entry = if i < self.pairs.len() {
            self.pairs.remove(i)
        } else {
            fresh_pair(pair)
        };
        entry.comments.push(comment);
        proof {
            if i >= a.len() {
                assert(entry.comments@ =~= seq![entry.comments@.last()]);
            }
        }
        let r = clone_snapshot(&entry);
        let ghost snew = entry;
        self.pairs.insert(i, entry);
        proof {
            if i < a.len() {
                assert(self.pairs@ =~= a.update(i as int, snew));
            } else {
                assert(self.pairs@ =~= a.push(snew));
            }
        }
        r
    }

    /// Removes the first matching comment from a pair; an unknown pair or
    /// comment leaves everything unchanged.
    pub fn remove_comment(&mut self, pair: &str, comment: &str) -> (r: Option<PairSnapshot>)
        ensures
            ({
                let a = old(self).pairs@;
                let i = first_pair(a, pair@);
                &&& forall|j: int|
                    0 <= j < a.len() && j != i ==> final(self).pairs@[j] == a[j]
                &&& (if i < a.len() {
                    let c = first_str(a[i].comments@, comment@);
                    if c < a[i].comments@.len() {
                        final(self).pairs@.len() == a.len() && same_but_comments(
                            final(self).pairs@[i],
                            a[i],
                            a[i].comments@.remove(c),
                        ) && (r matches Some(x) && snap_eq(x, final(self).pairs@[i]))
                    } else {
                        final(self).pairs@ == a && r is None
                    }
                } else {
                    final(self).pairs@ == a && r is None
                })
            }),
    {
        let ghost a = self.pairs@;
        let i = find_pair(&self.pairs, pair);
        if i == self.pairs.len() {
            return None;
        }
        let mut entry = self.pairs.remove(i);
        let c = find_comment(&entry.comments, comment);
        if c == entry.comments.len() {
            let ghost snew = entry;
            self.pairs.insert(i, entry);
            proof {
                assert(self.pairs@ =~= a.update(i as int, snew));
                assert(self.pairs@ =~= a);
            }
            return None;
        }
        entry.comments.remove(c);
        let r = clone_snapshot(&entry);
        let ghost snew = entry;
        self.pairs.insert(i, entry);
        proof {
            assert(self.pairs@ =~= a.update(i as int, snew));
        }
        Some(r)
    }
}

/// Index of the first matching comment, or the length if there is none.
fn find_comment(v: &Vec<String>, comment: &str) -> (r: usize)
    ensures
        r <= v@.len(),
        r == first_str(v@, comment@),
        r < v@.len() ==> v@[r as int]@ == comment@,
{
    let n = v.len();
    let mut i: usize = 0;
    while i < n
        invariant
            0 <= i <= n == v@.len(),
            forall|j: int| 0 <= j < i ==> (#[trigger] v@[j])@ != comment@,
        decreases n - i,
    {
        if str_eq(v[i].as_str(), comment) {
            proof {
                lemma_first_str_is(v@, comment@, i as int);
            }
            return i;
        }
        i = i + 1;
    }
    proof {
        lemma_first_str_is(v@, comment@, n as int);
    }
    n
}

/// Index of the snapshot for this pair, or the length if there is none.
fn find_pair(t: &Vec<PairSnapshot>, name: &str) -> (r: usize)
    ensures
        r <= t@.len(),
        r < t@.len() ==> t@[r as int].pair@ == name@,
        r == first_pair(t@, name@),
{
    let n = t.len();
    let mut i: usize = 0;
    while i < n
        invariant
            0 <= i <= n == t@.len(),
            forall|j: int| 0 <= j < i ==> (#[trigger] t@[j].pair)@ != name@,
        decreases n - i,
    {
        if str_eq(t[i].pair.as_str(), name) {
            proof {
                lemma_first_pair_is(t@, name@, i as int);
            }
            return i;
        }
        i = i + 1;
    }
    proof {
        lemma_first_pair_is(t@, name@, n as int);
    }
    n
}

} // verus!
