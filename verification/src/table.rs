//! The row table: the store's single mutation surface. Every versioned
//! record is filed under a key made of a tier and an object id; the table
//! is modelled as a map from such keys to stored documents.

use vstd::prelude::*;
use crate::record::Doc;

verus! {

/// Which tier a stored row belongs to.
#[derive(Clone, Copy, Debug, PartialEq, Eq, Structural)]
pub enum Tier {
    Head,
    ChangeSet(u64),
    EditSession(u64),
}

/// One stored row: a document filed under an object id at a tier.
pub struct Row {
    pub tier: Tier,
    pub object_id: String,
    pub doc: Doc,
}

impl Row {
    /// The row's key, as the specification sees it.
    pub open spec fn key(self) -> (Tier, Seq<char>) {
        (self.tier, self.object_id@)
    }
}

/// The contents of a row sequence, read as a map from key to document.
pub open spec fn table_map_of(rows: Seq<Row>) -> Map<(Tier, Seq<char>), Doc>
    decreases rows.len(),
{
    if rows.len() == 0 {
        Map::<(Tier, Seq<char>), Doc>::empty()
    } else {
        table_map_of(rows.drop_last()).insert(rows.last().key(), rows.last().doc)
    }
}

/// No two rows share a key.
pub open spec fn unique_keys(rows: Seq<Row>) -> bool {
    forall|i: int, j: int| 0 <= i < j < rows.len() ==> rows[i].key() != rows[j].key()
}

/// A key is in the map exactly when some row carries it.
pub proof fn lemma_table_contains(rows: Seq<Row>, k: (Tier, Seq<char>))
    ensures
        table_map_of(rows).contains_key(k) <==> exists|i: int|
            0 <= i < rows.len() && rows[i].key() == k,
    decreases rows.len(),
{
    if rows.len() > 0 {
        lemma_table_contains(rows.drop_last(), k);
        if rows.last().key() == k {
            assert(rows[rows.len() - 1].key() == k);
        } else {
            if table_map_of(rows).contains_key(k) {
                let i = choose|i: int|
                    0 <= i < rows.drop_last().len() && rows.drop_last()[i].key() == k;
                assert(rows[i].key() == k);
            }
            if exists|i: int| 0 <= i < rows.len() && rows[i].key() == k {
                let i = choose|i: int| 0 <= i < rows.len() && rows[i].key() == k;
                assert(rows.drop_last()[i].key() == k);
            }
        }
    }
}

/// In a table without duplicate keys, the map sends each row's key to that
/// row's document.
pub proof fn lemma_table_index(rows: Seq<Row>, i: int)
    requires
        unique_keys(rows),
        0 <= i < rows.len(),
    ensures
        table_map_of(rows).contains_key(rows[i].key()),
        table_map_of(rows)[rows[i].key()] == rows[i].doc,
    decreases rows.len(),
{
    if i < rows.len() - 1 {
        assert(rows[i].key() != rows[rows.len() - 1].key());
        assert(unique_keys(rows.drop_last()));
        lemma_table_index(rows.drop_last(), i);
        assert(rows.drop_last()[i] == rows[i]);
    }
}

/// Appending a row inserts its key.
pub proof fn lemma_table_push(rows: Seq<Row>, r: Row)
    ensures
        table_map_of(rows.push(r)) == table_map_of(rows).insert(r.key(), r.doc),
{
    assert(rows.push(r).drop_last() =~= rows);
    assert(rows.push(r).last() == r);
}

/// Removing a row of a duplicate-free table removes exactly its key.
pub proof fn lemma_table_remove(rows: Seq<Row>, i: int)
    requires
        unique_keys(rows),
        0 <= i < rows.len(),
    ensures
        table_map_of(rows.remove(i)) =~= table_map_of(rows).remove(rows[i].key()),
        unique_keys(rows.remove(i)),
    decreases rows.len(),
{
    rows.remove_ensures(i);
    assert(unique_keys(rows.remove(i))) by {
        assert forall|a: int, b: int|
            0 <= a < b < rows.remove(i).len() implies rows.remove(i)[a].key()
            != rows.remove(i)[b].key() by {
            let a0: int = if a < i { a } else { a + 1 };
            let b0: int = if b < i { b } else { b + 1 };
            assert(rows.remove(i)[a] == rows[a0]);
            assert(rows.remove(i)[b] == rows[b0]);
        }
    }
    let k = rows[i].key();
    if i == rows.len() - 1 {
        assert(rows.remove(i) =~= rows.drop_last());
        lemma_table_contains(rows.drop_last(), k);
        assert(forall|j: int|
            0 <= j < rows.drop_last().len() ==> rows.drop_last()[j].key() != k);
        assert(table_map_of(rows.drop_last()).remove(k) =~= table_map_of(rows.drop_last()));
    } else {
        let last = rows.last();
        assert(rows.remove(i).last() == last);
        assert(rows.remove(i).drop_last() =~= rows.drop_last().remove(i));
        assert(unique_keys(rows.drop_last()));
        lemma_table_remove(rows.drop_last(), i);
        assert(k != last.key());
        assert(table_map_of(rows.drop_last()).remove(k).insert(last.key(), last.doc)
            =~= table_map_of(rows.drop_last()).insert(last.key(), last.doc).remove(k));
    }
}

/// The documents one tier holds, keyed by object id alone.
pub open spec fn tier_docs(m: Map<(Tier, Seq<char>), Doc>, t: Tier) -> Map<Seq<char>, Doc> {
    Map::new(
        |oid: Seq<char>| m.contains_key((t, oid)),
        |oid: Seq<char>| m[(t, oid)],
    )
}

/// The table with every row of one tier removed.
pub open spec fn drop_tier(m: Map<(Tier, Seq<char>), Doc>, t: Tier) -> Map<
    (Tier, Seq<char>),
    Doc,
> {
    Map::new(
        |k: (Tier, Seq<char>)| m.contains_key(k) && k.0 != t,
        |k: (Tier, Seq<char>)| m[k],
    )
}

/// A drained tier, read as a map from object id to document.
pub open spec fn docs_of(s: Seq<(String, Doc)>) -> Map<Seq<char>, Doc>
    decreases s.len(),
{
    if s.len() == 0 {
        Map::<Seq<char>, Doc>::empty()
    } else {
        docs_of(s.drop_last()).insert(s.last().0@, s.last().1)
    }
}

/// No two drained entries share an object id.
pub open spec fn unique_ids(s: Seq<(String, Doc)>) -> bool {
    forall|i: int, j: int| 0 <= i < j < s.len() ==> s[i].0@ != s[j].0@
}

/// An object id is in the drained map exactly when some entry carries it.
pub proof fn lemma_docs_contains(s: Seq<(String, Doc)>, oid: Seq<char>)
    ensures
        docs_of(s).contains_key(oid) <==> exists|i: int| 0 <= i < s.len() && s[i].0@ == oid,
    decreases s.len(),
{
    if s.len() > 0 {
        lemma_docs_contains(s.drop_last(), oid);
        if s.last().0@ == oid {
            assert(s[s.len() - 1].0@ == oid);
        } else {
            if docs_of(s).contains_key(oid) {
                let i = choose|i: int| 0 <= i < s.drop_last().len() && s.drop_last()[i].0@ == oid;
                assert(s[i].0@ == oid);
            }
            if exists|i: int| 0 <= i < s.len() && s[i].0@ == oid {
                let i = choose|i: int| 0 <= i < s.len() && s[i].0@ == oid;
                assert(s.drop_last()[i].0@ == oid);
            }
        }
    }
}

/// In a duplicate-free drain, the map sends each entry's id to its document.
pub proof fn lemma_docs_index(s: Seq<(String, Doc)>, i: int)
    requires
        unique_ids(s),
        0 <= i < s.len(),
    ensures
        docs_of(s).contains_key(s[i].0@),
        docs_of(s)[s[i].0@] == s[i].1,
    decreases s.len(),
{
    if i < s.len() - 1 {
        assert(s[i].0@ != s[s.len() - 1].0@);
        assert(unique_ids(s.drop_last()));
        lemma_docs_index(s.drop_last(), i);
        assert(s.drop_last()[i] == s[i]);
    }
}

/// Appending a drained entry inserts its id.
pub proof fn lemma_docs_push(s: Seq<(String, Doc)>, e: (String, Doc))
    ensures
        docs_of(s.push(e)) == docs_of(s).insert(e.0@, e.1),
{
    assert(s.push(e).drop_last() =~= s);
    assert(s.push(e).last() == e);
}

/// Reading one more entry of a drain extends its map by that entry.
pub proof fn lemma_docs_take_push(s: Seq<(String, Doc)>, j: int)
    requires
        0 <= j < s.len(),
    ensures
        docs_of(s.take(j + 1)) == docs_of(s.take(j)).insert(s[j].0@, s[j].1),
{
    assert(s.take(j + 1).drop_last() =~= s.take(j));
    assert(s.take(j + 1).last() == s[j]);
}

/// A row key equals the pair of its parts.
pub proof fn lemma_key_eta(k: (Tier, Seq<char>))
    ensures
        k == (k.0, k.1),
{
    assert(k =~= (k.0, k.1));
}

/// The rows of the store, with a map view and a no-duplicate-keys
/// well-formedness condition that every operation preserves.
pub struct RowTable {
    pub rows: Vec<Row>,
}

impl View for RowTable {
    type V = Map<(Tier, Seq<char>), Doc>;

    open spec fn view(&self) -> Map<(Tier, Seq<char>), Doc> {
        table_map_of(self.rows@)
    }
}

impl RowTable {
    /// Well-formed: no two rows share a key.
    pub open spec fn wf(self) -> bool {
        unique_keys(self.rows@)
    }

    /// The empty table.
    pub fn new() -> (t: RowTable)
        ensures
            t.wf(),
            t@ == Map::<(Tier, Seq<char>), Doc>::empty(),
    {
        RowTable { rows: Vec::new() }
    }

    /// The index of the row keyed `(tier, object_id)`, if the table holds one.
    fn find_index(&self, tier: Tier, object_id: &String) -> (r: Option<usize>)
        ensures
            match r {
                Option::Some(i) => i < self.rows@.len() && self.rows@[i as int].key() == (
                    tier,
                    object_id@,
                ),
                Option::None => forall|i: int|
                    0 <= i < self.rows@.len() ==> self.rows@[i].key() != (tier, object_id@),
            },
    {
        let n = self.rows.len();
        let mut i: usize = 0;
        while i < n
            invariant
                n == self.rows@.len(),
                i <= n,
                forall|j: int| 0 <= j < i ==> self.rows@[j].key() != (tier, object_id@),
            decreases n - i,
        {
            let row = &self.rows[i];
            if row.tier == tier && row.object_id == *object_id {
                return Option::Some(i);
            }
            i = i + 1;
        }
        Option::None
    }

    /// Point read of one key.
    pub fn get(&self, tier: Tier, object_id: &String) -> (r: Option<&Doc>)
        requires
            self.wf(),
        ensures
            match r {
                Option::Some(d) => self@.contains_key((tier, object_id@)) && *d == self@[(
                    tier,
                    object_id@,
                )],
                Option::None => !self@.contains_key((tier, object_id@)),
            },
    {
        proof {
            lemma_table_contains(self.rows@, (tier, object_id@));
        }
        match self.find_index(tier, object_id) {
            Option::Some(i) => {
                proof {
                    lemma_table_index(self.rows@, i as int);
                }
                Option::Some(&self.rows[i].doc)
            },
            Option::None => Option::None,
        }
    }

    /// Create-or-replace of one key.
    pub fn upsert(&mut self, tier: Tier, object_id: String, doc: Doc)
        requires
            old(self).wf(),
        ensures
            final(self).wf(),
            final(self)@ == old(self)@.insert((tier, object_id@), doc),
    {
        match self.find_index(tier, &object_id) {
            Option::Some(i) => {
                proof {
                    lemma_table_remove(self.rows@, i as int);
                }
                self.rows.remove(i);
            },
            Option::None => {
                proof {
                    lemma_table_contains(self.rows@, (tier, object_id@));
                    assert(self@.remove((tier, object_id@)) =~= self@);
                }
            },
        }
        let ghost mid = self.rows@;
        let ghost k: (Tier, Seq<char>) = (tier, object_id@);
        let row = Row { tier, object_id, doc };
        proof {
            lemma_table_push(mid, row);
            lemma_table_contains(mid, k);
            assert(forall|j: int| 0 <= j < mid.len() ==> mid[j].key() != k);
            assert(unique_keys(mid.push(row))) by {
                assert forall|a: int, b: int|
                    0 <= a < b < mid.push(row).len() implies mid.push(row)[a].key()
                    != mid.push(row)[b].key() by {
                    if b < mid.len() {
                        assert(mid.push(row)[a] == mid[a]);
                        assert(mid.push(row)[b] == mid[b]);
                    } else {
                        assert(mid.push(row)[a] == mid[a]);
                        assert(mid.push(row)[b] == row);
                    }
                }
            }
            assert(table_map_of(mid).insert(k, doc) =~= old(self)@.insert(k, doc));
        }
        self.rows.push(row);
    }

    /// Drain every row of one tier, returning the drained documents keyed
    /// by object id. Rows of other tiers are untouched.
    pub fn extract_tier(&mut self, tier: Tier) -> (out: Vec<(String, Doc)>)
        requires
            old(self).wf(),
        ensures
            final(self).wf(),
            final(self)@ == drop_tier(old(self)@, tier),
            unique_ids(out@),
            docs_of(out@) == tier_docs(old(self)@, tier),
    {
        let mut out: Vec<(String, Doc)> = Vec::new();
        let mut i: usize = 0;
        while i < self.rows.len()
            invariant
                unique_keys(self.rows@),
                i <= self.rows@.len(),
                forall|j: int| 0 <= j < i ==> self.rows@[j].tier != tier,
                unique_ids(out@),
                drop_tier(table_map_of(self.rows@), tier) == drop_tier(old(self)@, tier),
                forall|oid: Seq<char>|
                    docs_of(out@).contains_key(oid) ==> !table_map_of(
                        self.rows@,
                    ).contains_key((tier, oid)),
                tier_docs(old(self)@, tier) == tier_docs(
                    table_map_of(self.rows@),
                    tier,
                ).union_prefer_right(docs_of(out@)),
            decreases self.rows@.len() - i,
        {
            let matches = self.rows[i].tier == tier;
            if matches {
                let ghost pre = self.rows@;
                let ghost preout = out@;
                proof {
                    lemma_table_index(pre, i as int);
                    lemma_table_remove(pre, i as int);
                }
                let row = self.rows.remove(i);
                let ghost oid = row.object_id@;
                let ghost d = row.doc;
                proof {
                    lemma_docs_contains(preout, oid);
                    lemma_docs_push(preout, (row.object_id, row.doc));
                    assert(!docs_of(preout).contains_key(oid));
                    assert(drop_tier(table_map_of(self.rows@), tier) =~= drop_tier(
                        table_map_of(pre),
                        tier,
                    ));
                    assert(tier_docs(table_map_of(pre), tier) =~= tier_docs(
                        table_map_of(self.rows@),
                        tier,
                    ).insert(oid, d));
                    assert(tier_docs(old(self)@, tier) =~= tier_docs(
                        table_map_of(self.rows@),
                        tier,
                    ).union_prefer_right(docs_of(preout).insert(oid, d)));
                    assert forall|a: int, b: int|
                        0 <= a < b < preout.push((row.object_id, row.doc)).len()
                        implies preout.push((row.object_id, row.doc))[a].0@ != preout.push(
                        (row.object_id, row.doc),
                    )[b].0@ by {
                        if b < preout.len() {
                            assert(preout.push((row.object_id, row.doc))[a] == preout[a]);
                            assert(preout.push((row.object_id, row.doc))[b] == preout[b]);
                        } else {
                            assert(preout.push((row.object_id, row.doc))[a] == preout[a]);
                            lemma_docs_index(preout, a);
                        }
                    }
                }
                out.push((row.object_id, row.doc));
            } else {
                i = i + 1;
            }
        }
        proof {
            assert forall|k: (Tier, Seq<char>)|
                table_map_of(self.rows@).contains_key(k) implies k.0 != tier by {
                lemma_table_contains(self.rows@, k);
            }
            assert forall|oid: Seq<char>| !table_map_of(self.rows@).contains_key(
                (tier, oid),
            ) by {
                lemma_table_contains(self.rows@, (tier, oid));
            }
            assert(table_map_of(self.rows@) =~= drop_tier(old(self)@, tier));
            assert(tier_docs(table_map_of(self.rows@), tier) =~= Map::<Seq<char>, Doc>::empty());
            assert(docs_of(out@) =~= tier_docs(old(self)@, tier));
        }
        out
    }

    /// Point deletion of one key; deleting an absent key changes nothing.
    pub fn delete(&mut self, tier: Tier, object_id: &String)
        requires
            old(self).wf(),
        ensures
            final(self).wf(),
            final(self)@ == old(self)@.remove((tier, object_id@)),
    {
        match self.find_index(tier, object_id) {
            Option::Some(i) => {
                proof {
                    lemma_table_remove(self.rows@, i as int);
                }
                self.rows.remove(i);
            },
            Option::None => {
                proof {
                    lemma_table_contains(self.rows@, (tier, object_id@));
                    assert(self@.remove((tier, object_id@)) =~= self@);
                }
            },
        }
    }
}

} // verus!
