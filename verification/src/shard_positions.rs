//! Shard position propagation: the broadcast event naming which shards
//! of a source advanced, and a subscriber's reconciled view of positions.
//!
//! An update lists only the shards whose position changed; absence means
//! "no change", never "reset". Updates apply in arrival order, and a
//! later position for the same shard supersedes an earlier one.
use vstd::pervasive::VecAdditionalExecFns;
use vstd::prelude::*;
use vstd::string::*;

use crate::pipeline::{IndexUid, ShardId, SourceId};

verus! {

/// Identity of one source of one index.
#[derive(Clone, Debug, PartialEq, Eq, Hash)]
pub struct SourceUid {
    pub index_uid: IndexUid,
    pub source_id: SourceId,
}

/// A shard's checkpoint position in its stream.
pub type Position = u64;

/// Event broadcast whenever shards of one source advance, whether the
/// advance was observed locally or learned from the cluster. Broadcast
/// is fire-and-forget; subscribers own durability.
#[derive(Clone, Debug, PartialEq, Eq)]
pub struct ShardPositionsUpdate {
    pub source_uid: SourceUid,
    /// Only the shards whose position changed, in observation order.
    pub updated_shard_positions: Vec<(ShardId, Position)>,
}

impl ShardPositionsUpdate {
    /// The listed (shard, position) pairs, as models.
    pub open spec fn spec_pairs(&self) -> Seq<(Seq<char>, Position)> {
        self.updated_shard_positions@.map_values(|p: (ShardId, Position)| (p.0@, p.1))
    }
}

/// Applying listed pairs in order: each listed shard is overwritten to
/// its latest listed position; unlisted shards keep their value.
pub open spec fn apply_pairs(
    m: Map<Seq<char>, Position>,
    ps: Seq<(Seq<char>, Position)>,
) -> Map<Seq<char>, Position>
    decreases ps.len(),
{
    if ps.len() == 0 {
        m
    } else {
        apply_pairs(m, ps.drop_last()).insert(ps.last().0, ps.last().1)
    }
}

/// Updates compose in arrival order: applying the pairs of two updates
/// one after the other is applying their concatenation.
pub proof fn lemma_apply_pairs_append(
    m: Map<Seq<char>, Position>,
    a: Seq<(Seq<char>, Position)>,
    b: Seq<(Seq<char>, Position)>,
)
    ensures
        apply_pairs(m, a + b) == apply_pairs(apply_pairs(m, a), b),
    decreases b.len(),
{
    if b.len() == 0 {
        assert(a + b =~= a);
    } else {
        assert((a + b).drop_last() =~= a + b.drop_last());
        assert((a + b).last() == b.last());
        lemma_apply_pairs_append(m, a, b.drop_last());
    }
}

/// A shard listed by no pair keeps its prior value: absence means "no
/// change", never "reset to unknown".
pub proof fn lemma_unlisted_shard_unchanged(
    m: Map<Seq<char>, Position>,
    ps: Seq<(Seq<char>, Position)>,
    shard: Seq<char>,
)
    requires
        forall|i: int| 0 <= i < ps.len() ==> (#[trigger] ps[i]).0 != shard,
    ensures
        apply_pairs(m, ps).contains_key(shard) == m.contains_key(shard),
        m.contains_key(shard) ==> apply_pairs(m, ps)[shard] == m[shard],
    decreases ps.len(),
{
    if ps.len() > 0 {
        assert(ps.last() == ps[ps.len() - 1]);
        assert forall|i: int| 0 <= i < ps.drop_last().len() implies (#[trigger] ps.drop_last()[i]).0
            != shard by {
            assert(ps.drop_last()[i] == ps[i]);
        }
        lemma_unlisted_shard_unchanged(m, ps.drop_last(), shard);
    }
}

/// Last write wins: a listed shard ends at its last listed position,
/// whatever was listed for it earlier and whatever the view held before.
pub proof fn lemma_listed_shard_takes_last(
    m: Map<Seq<char>, Position>,
    ps: Seq<(Seq<char>, Position)>,
    i: int,
)
    requires
        0 <= i < ps.len(),
        forall|j: int| i < j < ps.len() ==> (#[trigger] ps[j]).0 != ps[i].0,
    ensures
        apply_pairs(m, ps).contains_key(ps[i].0),
        apply_pairs(m, ps)[ps[i].0] == ps[i].1,
    decreases ps.len(),
{
    if i == ps.len() - 1 {
        assert(ps.last() == ps[i]);
    } else {
        let t = ps.drop_last();
        assert(ps.last() == ps[ps.len() - 1]);
        assert(ps[ps.len() - 1].0 != ps[i].0);
        assert(t[i] == ps[i]);
        assert forall|j: int| i < j < t.len() implies (#[trigger] t[j]).0 != t[i].0 by {
            assert(t[j] == ps[j]);
        }
        lemma_listed_shard_takes_last(m, t, i);
    }
}

proof fn lemma_pairs_key_at(s: Seq<(Seq<char>, Position)>, i: int)
    requires
        0 <= i < s.len(),
        forall|a: int, b: int| 0 <= a < b < s.len() ==> (#[trigger] s[a]).0 != (#[trigger] s[b]).0,
    ensures
        apply_pairs(Map::empty(), s).contains_key(s[i].0),
        apply_pairs(Map::empty(), s)[s[i].0] == s[i].1,
    decreases s.len(),
{
    if i == s.len() - 1 {
        assert(s.last() == s[i]);
    } else {
        let t = s.drop_last();
        assert(t[i] == s[i]);
        assert(s.last() == s[s.len() - 1]);
        assert(s[i].0 != s[s.len() - 1].0);
        assert forall|a: int, b: int| 0 <= a < b < t.len() implies (#[trigger] t[a]).0 != (
        #[trigger] t[b]).0 by {
            assert(t[a] == s[a]);
            assert(t[b] == s[b]);
        }
        lemma_pairs_key_at(t, i);
    }
}

proof fn lemma_pairs_no_key(s: Seq<(Seq<char>, Position)>, k: Seq<char>)
    requires
        forall|i: int| 0 <= i < s.len() ==> (#[trigger] s[i]).0 != k,
    ensures
        !apply_pairs(Map::empty(), s).contains_key(k),
    decreases s.len(),
{
    if s.len() > 0 {
        assert(s.last() == s[s.len() - 1]);
        assert forall|i: int| 0 <= i < s.drop_last().len() implies (#[trigger] s.drop_last()[i]).0
            != k by {
            assert(s.drop_last()[i] == s[i]);
        }
        lemma_pairs_no_key(s.drop_last(), k);
    }
}

proof fn lemma_pairs_update_key(s: Seq<(Seq<char>, Position)>, i: int, v: Position)
    requires
        0 <= i < s.len(),
        forall|a: int, b: int| 0 <= a < b < s.len() ==> (#[trigger] s[a]).0 != (#[trigger] s[b]).0,
    ensures
        apply_pairs(Map::empty(), s.update(i, (s[i].0, v))) == apply_pairs(Map::empty(), s).insert(
            s[i].0,
            v,
        ),
    decreases s.len(),
{
    let k = s[i].0;
    let s2 = s.update(i, (k, v));
    if i == s.len() - 1 {
        assert(s2.drop_last() =~= s.drop_last());
        assert(s2.last() == (k, v));
        assert(s.last() == s[i]);
        assert(apply_pairs(Map::empty(), s2) =~= apply_pairs(Map::empty(), s).insert(k, v));
    } else {
        let t = s.drop_last();
        assert(s2.drop_last() =~= t.update(i, (k, v)));
        assert(s2.last() == s.last());
        assert(t[i] == s[i]);
        assert forall|a: int, b: int| 0 <= a < b < t.len() implies (#[trigger] t[a]).0 != (
        #[trigger] t[b]).0 by {
            assert(t[a] == s[a]);
            assert(t[b] == s[b]);
        }
        lemma_pairs_update_key(t, i, v);
        assert(s.last() == s[s.len() - 1]);
        assert(s[s.len() - 1].0 != k);
        assert(apply_pairs(Map::empty(), s2) =~= apply_pairs(Map::empty(), s).insert(k, v));
    }
}

/// A subscriber's reconciled view of shard positions, keyed by shard.
pub struct ShardPositionsView {
    entries: Vec<(ShardId, Position)>,
}

impl View for ShardPositionsView {
    type V = Map<Seq<char>, Position>;

    closed spec fn view(&self) -> Map<Seq<char>, Position> {
        apply_pairs(Map::empty(), self.spec_entries())
    }
}

impl ShardPositionsView {
    pub closed spec fn spec_entries(&self) -> Seq<(Seq<char>, Position)> {
        self.entries@.map_values(|p: (ShardId, Position)| (p.0@, p.1))
    }

    /// Each shard occurs at most once in the backing entries; `new`
    /// establishes it and every method preserves it.
    pub closed spec fn wf(&self) -> bool {
        forall|a: int, b: int|
            0 <= a < b < self.spec_entries().len() ==> (#[trigger] self.spec_entries()[a]).0 != (
            #[trigger] self.spec_entries()[b]).0
    }

    /// A view that has seen no update yet.
    pub fn new() -> (v: ShardPositionsView)
        ensures
            v@ == Map::<Seq<char>, Position>::empty(),
            v.wf(),
    {
        let v = ShardPositionsView { entries: Vec::new() };
        proof {
            assert(v.spec_entries() =~= Seq::<(Seq<char>, Position)>::empty());
        }
        v
    }

    /// The reconciled position of `shard_id`, if any update listed it.
    pub fn position(&self, shard_id: &ShardId) -> (r: Option<Position>)
        requires
            self.wf(),
        ensures
            match r {
                Some(p) => self@.contains_key(shard_id@) && p == self@[shard_id@],
                None => !self@.contains_key(shard_id@),
            },
    {
        let n = self.entries.len();
        let mut i: usize = 0;
        while i < n
            invariant
                0 <= i <= n,
                n == self.entries@.len(),
                self.wf(),
                forall|j: int| 0 <= j < i ==> (#[trigger] self.spec_entries()[j]).0 != shard_id@,
            decreases n - i,
        {
            let e = &self.entries[i];
            if e.0 == *shard_id {
                proof {
                    lemma_pairs_key_at(self.spec_entries(), i as int);
                }
                return Some(e.1);
            }
            i = i + 1;
        }
        proof {
            lemma_pairs_no_key(self.spec_entries(), shard_id@);
        }
        None
    }

    /// Record `position` for `shard_id`, superseding any earlier value.
    fn upsert(&mut self, shard_id: &ShardId, position: Position)
        requires
            old(self).wf(),
        ensures
            final(self)@ == old(self)@.insert(shard_id@, position),
            final(self).wf(),
    {
        let n = self.entries.len();
        let mut i: usize = 0;
        while i < n
            invariant
                0 <= i <= n,
                n == self.entries@.len(),
                *self == *old(self),
                self.wf(),
                forall|j: int| 0 <= j < i ==> (#[trigger] self.spec_entries()[j]).0 != shard_id@,
            decreases n - i,
        {
            let hit = self.entries[i].0 == *shard_id;
            if hit {
                let ghost before = self.spec_entries();
                self.entries.set(i, (shard_id.clone(), position));
                proof {
                    assert(self.spec_entries() =~= before.update(
                        i as int,
                        (shard_id@, position),
                    ));
                    assert(before[i as int].0 == shard_id@);
                    lemma_pairs_update_key(before, i as int, position);
                }
                return ;
            }
            i = i + 1;
        }
        let ghost before = self.spec_entries();
        self.entries.push((shard_id.clone(), position));
        proof {
            assert(self.spec_entries() =~= before.push((shard_id@, position)));
            assert(self.spec_entries().drop_last() =~= before);
            assert forall|a: int, b: int| 0 <= a < b < self.spec_entries().len() implies (
            #[trigger] self.spec_entries()[a]).0 != (#[trigger] self.spec_entries()[b]).0 by {
                if b < before.len() {
                    assert(self.spec_entries()[a] == before[a]);
                    assert(self.spec_entries()[b] == before[b]);
                } else {
                    assert(self.spec_entries()[a] == before[a]);
                    assert(self.spec_entries()[b].0 == shard_id@);
                }
            }
        }
    }

    /// Apply one update event, in arrival order: listed shards take
    /// their listed positions, unlisted shards keep theirs.
    pub fn apply_update(&mut self, update: &ShardPositionsUpdate)
        requires
            old(self).wf(),
        ensures
            final(self)@ == apply_pairs(old(self)@, update.spec_pairs()),
            final(self).wf(),
    {
        let n = update.updated_shard_positions.len();
        let mut k: usize = 0;
        while k < n
            invariant
                0 <= k <= n,
                n == update.updated_shard_positions@.len(),
                self.wf(),
                self@ == apply_pairs(old(self)@, update.spec_pairs().take(k as int)),
            decreases n - k,
        {
            let pair = &update.updated_shard_positions[k];
            self.upsert(&pair.0, pair.1);
            proof {
                let ps = update.spec_pairs();
                assert(ps.take(k as int + 1).drop_last() =~= ps.take(k as int));
                assert(ps.take(k as int + 1).last() == ps[k as int]);
            }
            k = k + 1;
        }
        proof {
            assert(update.spec_pairs().take(n as int) =~= update.spec_pairs());
        }
    }
}

} // verus!
