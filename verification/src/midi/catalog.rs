//! The ports on offer, by name.
//!
//! A catalog maps each port name to the handle that the driver gave for it.
//! It keeps its rows in the order of names, each name once.
//!
//! The rows stand in a vector, and the order is the catalog's own to keep and
//! to prove. A tree keyed by text would keep it too, but of such a tree Verus
//! can prove nothing, for want of an account of how text compares.

use vstd::prelude::*;
use super::name::{lemma_name_order, name_before, rank, Rank};

verus! {

/// A row of the catalog as contracts see it: a name and its handle.
pub type Row<P> = (Seq<char>, P);

/// The names stand in strictly ascending order.
pub open spec fn rows_sorted<P>(rows: Seq<Row<P>>) -> bool {
    forall|i: int, j: int| 0 <= i < j < rows.len() ==> name_before(#[trigger] rows[i].0, #[trigger] rows[j].0)
}

/// Some row has the given name.
pub open spec fn rows_have<P>(rows: Seq<Row<P>>, name: Seq<char>) -> bool {
    exists|i: int| 0 <= i < rows.len() && (#[trigger] rows[i]).0 == name
}

/// A place at which the given name stands, where some row has it.
pub open spec fn rows_position<P>(rows: Seq<Row<P>>, name: Seq<char>) -> int {
    choose|i: int| 0 <= i < rows.len() && (#[trigger] rows[i]).0 == name
}

/// The rows as a map from name to handle.
pub open spec fn rows_map<P>(rows: Seq<Row<P>>) -> Map<Seq<char>, P> {
    Map::new(
        |name: Seq<char>| rows_have(rows, name),
        |name: Seq<char>| rows[rows_position(rows, name)].1,
    )
}

/// In sorted rows a name stands at one place only, so the map holds each
/// row's handle under the row's name.
pub proof fn lemma_rows_map_at<P>(rows: Seq<Row<P>>, i: int)
    requires
        rows_sorted(rows),
        0 <= i < rows.len(),
    ensures
        rows_map(rows).contains_key(rows[i].0),
        rows_map(rows)[rows[i].0] == rows[i].1,
        rows_position(rows, rows[i].0) == i,
{
    assert(rows_have(rows, rows[i].0));
    let k = rows_position(rows, rows[i].0);
    lemma_name_order(rows[i].0, rows[k].0, rows[i].0);
    lemma_name_order(rows[k].0, rows[i].0, rows[i].0);
}

/// Putting a new name at its place in sorted rows keeps them sorted and adds
/// the name to the map.
pub proof fn lemma_rows_insert<P>(rows: Seq<Row<P>>, at: int, name: Seq<char>, port: P)
    requires
        rows_sorted(rows),
        0 <= at <= rows.len(),
        forall|k: int| 0 <= k < at ==> name_before(#[trigger] rows[k].0, name),
        at < rows.len() ==> name_before(name, rows[at].0),
    ensures
        rows_sorted(rows.insert(at, (name, port))),
        rows_map(rows.insert(at, (name, port))) == rows_map(rows).insert(name, port),
{
    let after = rows.insert(at, (name, port));
    assert forall|k: int| at <= k < rows.len() implies name_before(name, #[trigger] rows[k].0) by {
        if k > at {
            lemma_name_order(name, rows[at].0, rows[k].0);
        }
    }
    assert forall|i: int, j: int| 0 <= i < j < after.len() implies name_before(
        #[trigger] after[i].0,
        #[trigger] after[j].0,
    ) by {
        let oi = if i < at { i } else { i - 1 };
        let oj = if j < at { j } else { j - 1 };
        if i != at && j != at {
            assert(after[i] == rows[oi]);
            assert(after[j] == rows[oj]);
        } else if i == at {
            assert(after[j] == rows[oj]);
        } else {
            assert(after[i] == rows[oi]);
        }
    }
    assert forall|n: Seq<char>| rows_have(after, n) <==> (n == name || rows_have(rows, n)) by {
        if rows_have(after, n) {
            let i = rows_position(after, n);
            if i != at {
                let oi = if i < at { i } else { i - 1 };
                assert(after[i] == rows[oi]);
            }
        }
        if n == name {
            assert(after[at].0 == n);
        }
        if rows_have(rows, n) {
            let i = rows_position(rows, n);
            let ni = if i < at { i } else { i + 1 };
            assert(after[ni] == rows[i]);
        }
    }
    assert forall|n: Seq<char>| rows_have(after, n) implies #[trigger] rows_map(after)[n]
        == rows_map(rows).insert(name, port)[n] by {
        let i = rows_position(after, n);
        lemma_rows_map_at(after, i);
        if i != at {
            let oi = if i < at { i } else { i - 1 };
            assert(after[i] == rows[oi]);
            lemma_rows_map_at(rows, oi);
            lemma_name_order(n, name, n);
            lemma_name_order(name, n, n);
        }
    }
    assert(rows_map(after) =~= rows_map(rows).insert(name, port));
}

/// Giving a row another handle keeps the rows sorted and changes the map at
/// that row's name only.
pub proof fn lemma_rows_update<P>(rows: Seq<Row<P>>, at: int, port: P)
    requires
        rows_sorted(rows),
        0 <= at < rows.len(),
    ensures
        rows_sorted(rows.update(at, (rows[at].0, port))),
        rows_map(rows.update(at, (rows[at].0, port))) == rows_map(rows).insert(rows[at].0, port),
{
    let name = rows[at].0;
    let after = rows.update(at, (name, port));
    assert forall|i: int, j: int| 0 <= i < j < after.len() implies name_before(
        #[trigger] after[i].0,
        #[trigger] after[j].0,
    ) by {
        assert(after[i].0 == rows[i].0);
        assert(after[j].0 == rows[j].0);
    }
    assert forall|n: Seq<char>| rows_have(after, n) <==> (n == name || rows_have(rows, n)) by {
        if rows_have(after, n) {
            let i = rows_position(after, n);
            assert(after[i].0 == rows[i].0);
        }
        if n == name {
            assert(after[at].0 == n);
        }
        if rows_have(rows, n) {
            let i = rows_position(rows, n);
            assert(after[i].0 == rows[i].0);
        }
    }
    assert forall|n: Seq<char>| rows_have(after, n) implies #[trigger] rows_map(after)[n]
        == rows_map(rows).insert(name, port)[n] by {
        let i = rows_position(after, n);
        lemma_rows_map_at(after, i);
        assert(after[i].0 == rows[i].0);
        lemma_rows_map_at(rows, i);
        lemma_rows_map_at(rows, at);
    }
    assert(rows_map(after) =~= rows_map(rows).insert(name, port));
}

/// Sorted rows are settled by their map: two sorted lists of rows with the
/// same map are the same list.
pub proof fn lemma_rows_by_map<P>(a: Seq<Row<P>>, b: Seq<Row<P>>)
    requires
        rows_sorted(a),
        rows_sorted(b),
        rows_map(a) == rows_map(b),
    ensures
        a == b,
    decreases a.len(),
{
    if a.len() == 0 {
        if b.len() > 0 {
            lemma_rows_map_at(b, 0);
            assert(rows_have(a, b[0].0));
        }
        assert(a =~= b);
    } else if b.len() == 0 {
        lemma_rows_map_at(a, 0);
        assert(rows_have(b, a[0].0));
    } else {
        // The two last rows carry the greatest name of the one map.
        let la = a.len() - 1;
        let lb = b.len() - 1;
        lemma_rows_map_at(a, la);
        lemma_rows_map_at(b, lb);
        assert(rows_have(b, a[la].0));
        assert(rows_have(a, b[lb].0));
        let ib = rows_position(b, a[la].0);
        let ia = rows_position(a, b[lb].0);
        lemma_name_order(a[la].0, b[lb].0, a[la].0);
        lemma_name_order(b[lb].0, a[la].0, b[lb].0);
        if ib < lb {
            assert(name_before(b[ib].0, b[lb].0));
        }
        if ia < la {
            assert(name_before(a[ia].0, a[la].0));
        }
        assert(a[la].0 == b[lb].0);
        assert(a[la].1 == b[lb].1);
        let pa = a.drop_last();
        let pb = b.drop_last();
        assert(rows_sorted(pa)) by {
            assert forall|i: int, j: int| 0 <= i < j < pa.len() implies name_before(
                #[trigger] pa[i].0,
                #[trigger] pa[j].0,
            ) by {
                assert(pa[i] == a[i] && pa[j] == a[j]);
            }
        }
        assert(rows_sorted(pb)) by {
            assert forall|i: int, j: int| 0 <= i < j < pb.len() implies name_before(
                #[trigger] pb[i].0,
                #[trigger] pb[j].0,
            ) by {
                assert(pb[i] == b[i] && pb[j] == b[j]);
            }
        }
        assert forall|n: Seq<char>| rows_have(pa, n) <==> rows_have(pb, n) by {
            if rows_have(pa, n) {
                let i = rows_position(pa, n);
                assert(pa[i] == a[i]);
                assert(name_before(a[i].0, a[la].0));
                lemma_name_order(n, a[la].0, n);
                assert(rows_have(a, n));
                assert(rows_map(b).contains_key(n));
                let k = rows_position(b, n);
                assert(k != lb);
                assert(pb[k] == b[k]);
            }
            if rows_have(pb, n) {
                let i = rows_position(pb, n);
                assert(pb[i] == b[i]);
                assert(name_before(b[i].0, b[lb].0));
                lemma_name_order(n, b[lb].0, n);
                assert(rows_have(b, n));
                assert(rows_map(a).contains_key(n));
                let k = rows_position(a, n);
                assert(k != la);
                assert(pa[k] == a[k]);
            }
        }
        assert forall|n: Seq<char>| rows_have(pa, n) implies #[trigger] rows_map(pa)[n] == rows_map(
            pb,
        )[n] by {
            let i = rows_position(pa, n);
            let k = rows_position(pb, n);
            lemma_rows_map_at(pa, i);
            lemma_rows_map_at(pb, k);
            assert(pa[i] == a[i]);
            assert(pb[k] == b[k]);
            lemma_rows_map_at(a, i);
            lemma_rows_map_at(b, k);
        }
        assert(rows_map(pa) =~= rows_map(pb));
        lemma_rows_by_map(pa, pb);
        assert(a =~= pa.push(a[la]));
        assert(b =~= pb.push(b[lb]));
    }
}

/// The rows of a catalog, in the order of names.
pub open spec fn listing<P>(catalog: Map<Seq<char>, P>) -> Seq<Row<P>> {
    choose|rows: Seq<Row<P>>| rows_sorted(rows) && rows_map(rows) == catalog
}

/// The names of a catalog, in the order of names.
pub open spec fn names_in_order<P>(catalog: Map<Seq<char>, P>) -> Seq<Seq<char>> {
    listing(catalog).map_values(|row: Row<P>| row.0)
}

/// Sorted rows are the listing of their map.
pub proof fn lemma_listing<P>(rows: Seq<Row<P>>)
    requires
        rows_sorted(rows),
    ensures
        listing(rows_map(rows)) == rows,
{
    lemma_rows_by_map(listing(rows_map(rows)), rows);
}

/// The names ascend strictly in the order of names, and they are the names
/// of the catalog.
pub open spec fn lists<P>(names: Seq<Seq<char>>, catalog: Map<Seq<char>, P>) -> bool {
    &&& forall|i: int, j: int|
        0 <= i < j < names.len() ==> name_before(#[trigger] names[i], #[trigger] names[j])
    &&& forall|name: Seq<char>| #[trigger] catalog.contains_key(name) <==> names.contains(name)
}

/// The names of sorted rows are what `names_in_order` gives for the map of
/// the rows: they ascend strictly, and they are the names of that map.
pub proof fn lemma_names_in_order<P>(rows: Seq<Row<P>>)
    requires
        rows_sorted(rows),
    ensures
        names_in_order(rows_map(rows)) == rows.map_values(|row: Row<P>| row.0),
        lists(names_in_order(rows_map(rows)), rows_map(rows)),
{
    lemma_listing(rows);
    let names = rows.map_values(|row: Row<P>| row.0);
    assert forall|name: Seq<char>| #[trigger] rows_map(rows).contains_key(name) <==> names.contains(
        name,
    ) by {
        if rows_have(rows, name) {
            let i = rows_position(rows, name);
            assert(names[i] == name);
        }
        if names.contains(name) {
            let i = choose|i: int| 0 <= i < names.len() && names[i] == name;
            assert(rows[i].0 == name);
        }
    }
    assert forall|i: int, j: int| 0 <= i < j < names.len() implies name_before(
        #[trigger] names[i],
        #[trigger] names[j],
    ) by {
        assert(names[i] == rows[i].0 && names[j] == rows[j].0);
    }
}

/// A port on offer: its name and the handle that opens it.
pub struct Entry<P> {
    name: String,
    port: P,
}

/// The ports on offer, each name once, in the order of names.
pub struct Catalog<P> {
    entries: Vec<Entry<P>>,
}

impl<P> View for Catalog<P> {
    type V = Seq<Row<P>>;

    /// The rows of the catalog, in order.
    closed spec fn view(&self) -> Seq<Row<P>> {
        self.entries@.map_values(|e: Entry<P>| (e.name@, e.port))
    }
}

impl<P> Catalog<P> {
    /// The catalog keeps its names in strictly ascending order.
    pub open spec fn wf(&self) -> bool {
        rows_sorted(self@)
    }

    /// The catalog as a map from name to handle.
    pub open spec fn as_map(&self) -> Map<Seq<char>, P> {
        rows_map(self@)
    }

    /// An empty catalog.
    pub fn new() -> (catalog: Self)
        ensures
            catalog.wf(),
            catalog@ == Seq::<Row<P>>::empty(),
            catalog.as_map() == Map::<Seq<char>, P>::empty(),
    {
        let catalog = Catalog { entries: Vec::new() };
        assert(catalog@ =~= Seq::<Row<P>>::empty());
        assert(catalog.as_map() =~= Map::<Seq<char>, P>::empty());
        catalog
    }

    /// The number of ports on offer.
    pub fn len(&self) -> (n: usize)
        ensures
            n == self@.len(),
    {
        self.entries.len()
    }

    /// Removes every port.
    pub fn clear(&mut self)
        ensures
            final(self).wf(),
            final(self)@ == Seq::<Row<P>>::empty(),
            final(self).as_map() == Map::<Seq<char>, P>::empty(),
    {
        self.entries.clear();
        assert(self@ =~= Seq::<Row<P>>::empty());
        assert(self.as_map() =~= Map::<Seq<char>, P>::empty());
    }

    /// Where the name stands, or where it would have to be put.
    fn locate(&self, name: &str) -> (found: (usize, bool))
        requires
            self.wf(),
        ensures
            found.0 <= self@.len(),
            forall|k: int| 0 <= k < found.0 ==> name_before(#[trigger] self@[k].0, name@),
            found.1 ==> found.0 < self@.len() && self@[found.0 as int].0 == name@,
            !found.1 && found.0 < self@.len() ==> name_before(name@, self@[found.0 as int].0),
            found.1 <==> rows_have(self@, name@),
    {
        let mut i: usize = 0;
        while i < self.entries.len()
            invariant
                self.wf(),
                i <= self.entries@.len(),
                self@.len() == self.entries@.len(),
                forall|k: int| 0 <= k < i ==> name_before(#[trigger] self@[k].0, name@),
            decreases self.entries.len() - i,
        {
            let r = rank(self.entries[i].name.as_str(), name);
            assert(self@[i as int].0 == self.entries@[i as int].name@);
            match r {
                Rank::Before => {},
                Rank::Same => {
                    return (i, true);
                },
                Rank::After => {
                    proof {
                        self.lemma_absent_at(name@, i as int);
                    }
                    return (i, false);
                },
            }
            i += 1;
        }
        proof {
            self.lemma_absent_at(name@, i as int);
        }
        (i, false)
    }

    /// A name that sorts after every row before `at`, and before the row at
    /// `at` where there is one, is in no row.
    proof fn lemma_absent_at(&self, name: Seq<char>, at: int)
        requires
            self.wf(),
            0 <= at <= self@.len(),
            forall|k: int| 0 <= k < at ==> name_before(#[trigger] self@[k].0, name),
            at < self@.len() ==> name_before(name, self@[at].0),
        ensures
            !rows_have(self@, name),
    {
        if rows_have(self@, name) {
            let i = rows_position(self@, name);
            lemma_name_order(name, name, name);
            if i > at {
                lemma_name_order(name, self@[at].0, self@[i].0);
            }
        }
    }

    /// The handle of the port with the given name, if it is on offer.
    pub fn get(&self, name: &str) -> (port: Option<&P>)
        requires
            self.wf(),
        ensures
            port is Some <==> self.as_map().contains_key(name@),
            port is Some ==> *port->0 == self.as_map()[name@],
    {
        let (at, found) = self.locate(name);
        if found {
            proof {
                lemma_rows_map_at(self@, at as int);
            }
            Some(&self.entries[at].port)
        } else {
            None
        }
    }

    /// Tells whether a port of the given name is on offer.
    pub fn contains(&self, name: &str) -> (yes: bool)
        requires
            self.wf(),
        ensures
            yes == self.as_map().contains_key(name@),
    {
        let (_, found) = self.locate(name);
        found
    }

    /// Puts a port on offer under the given name. A port that was on offer
    /// under that name gives way to the new one.
    pub fn insert(&mut self, name: String, port: P)
        requires
            old(self).wf(),
        ensures
            final(self).wf(),
            final(self).as_map() == old(self).as_map().insert(name@, port),
    {
        let (at, found) = self.locate(name.as_str());
        let ghost before = self@;
        if found {
            proof {
                lemma_rows_update(before, at as int, port);
            }
            self.entries.set(at, Entry { name, port });
            assert(self@ =~= before.update(at as int, (before[at as int].0, port)));
        } else {
            proof {
                lemma_rows_insert(before, at as int, name@, port);
            }
            self.entries.insert(at, Entry { name, port });
            assert(self@ =~= before.insert(at as int, (name@, port)));
        }
    }

    /// The names on offer, in order.
    pub fn list(&self) -> (names: Vec<String>)
        requires
            self.wf(),
        ensures
            names@.map_values(|name: String| name@) == names_in_order(self.as_map()),
            lists(names@.map_values(|name: String| name@), self.as_map()),
    {
        let mut names: Vec<String> = Vec::new();
        let mut i: usize = 0;
        while i < self.entries.len()
            invariant
                i <= self.entries@.len(),
                names@.len() == i,
                forall|k: int| 0 <= k < i ==> (#[trigger] names@[k])@ == self.entries@[k].name@,
            decreases self.entries.len() - i,
        {
            names.push(self.entries[i].name.clone());
            i += 1;
        }
        proof {
            lemma_names_in_order(self@);
        }
        assert(names@.map_values(|name: String| name@) =~= names_in_order(self.as_map()));
        names
    }

    /// The names of the catalog in order ascend strictly, and they are the
    /// names on offer.
    pub proof fn lemma_names(&self)
        requires
            self.wf(),
        ensures
            lists(names_in_order(self.as_map()), self.as_map()),
    {
        lemma_names_in_order(self@);
    }
}

} // verus!
