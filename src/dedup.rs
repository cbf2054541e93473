use vstd::prelude::*;

verus! {

/// An opaque, comparable identity of a focused element (its runtime id).
#[derive(Clone, Debug, PartialEq, Eq)]
pub struct ElementId {
    pub parts: Vec<i32>,
}

impl View for ElementId {
    type V = Seq<i32>;

    open spec fn view(&self) -> Seq<i32> {
        self.parts@
    }
}

impl ElementId {
    pub fn new(parts: Vec<i32>) -> (r: ElementId)
        ensures
            r@ == parts@,
    {
        ElementId { parts }
    }

    /// A copy of this identity.
    pub fn clone_id(&self) -> (r: ElementId)
        ensures
            r@ == self@,
    {
        ElementId { parts: self.parts.clone() }
    }

    /// Whether both name the same element.
    pub fn same_as(&self, other: &ElementId) -> (r: bool)
        ensures
            r == (self@ == other@),
    {
        if self.parts.len() != other.parts.len() {
            return false;
        }
        let mut i: usize = 0;
        while i < self.parts.len()
            invariant
                i <= self.parts.len() == other.parts.len(),
                forall|k: int| 0 <= k < i ==> self.parts@[k] == other.parts@[k],
            decreases self.parts.len() - i,
        {
            if self.parts[i] != other.parts[i] {
                return false;
            }
            i += 1;
        }
        assert(self@ =~= other@);
        true
    }
}

/// Whether a focus change on `id` goes downstream, given the last element seen.
pub open spec fn emits(previous: Option<Seq<i32>>, id: Seq<i32>) -> bool {
    previous != Some(id)
}

/// For each of a sequence of focus changes, whether it goes downstream.
pub open spec fn emitted(previous: Option<Seq<i32>>, ids: Seq<Seq<i32>>) -> Seq<bool>
    decreases ids.len(),
{
    if ids.len() == 0 {
        Seq::empty()
    } else {
        seq![emits(previous, ids[0])] + emitted(Some(ids[0]), ids.drop_first())
    }
}

/// Suppresses repeated focus changes on the same element. It keeps only an
/// identity to compare with, never the element itself.
pub struct FocusDeduplicator {
    pub previous: Option<ElementId>,
}

impl View for FocusDeduplicator {
    type V = Option<Seq<i32>>;

    open spec fn view(&self) -> Option<Seq<i32>> {
        match self.previous {
            Some(p) => Some(p@),
            None => None,
        }
    }
}

impl FocusDeduplicator {
    pub fn new() -> (r: FocusDeduplicator)
        ensures
            r@ is None,
    {
        FocusDeduplicator { previous: None }
    }

    /// A focus change on `id`: true when it differs from the last one seen, which
    /// `id` then becomes.
    pub fn offer(&mut self, id: ElementId) -> (r: bool)
        ensures
            r == emits(old(self)@, id@),
            final(self)@ == Some(id@),
    {
        let fresh = match &self.previous {
            Some(p) => !p.same_as(&id),
            None => true,
        };
        self.previous = Some(id);
        fresh
    }
}

/// The identities of `ids`, in order.
pub open spec fn ids_view(ids: Seq<ElementId>) -> Seq<Seq<i32>> {
    ids.map_values(|e: ElementId| e@)
}

impl FocusDeduplicator {
    /// Offers focus changes in order, as repeated calls of `offer` would: for each,
    /// whether it goes downstream.
    pub fn offer_all(&mut self, ids: Vec<ElementId>) -> (r: Vec<bool>)
        ensures
            r@ == emitted(old(self)@, ids_view(ids@)),
            ids@.len() == 0 ==> final(self)@ == old(self)@,
            ids@.len() > 0 ==> final(self)@ == Some(ids@.last()@),
    {
        let ghost start = self@;
        let ghost all = ids_view(ids@);
        let mut out: Vec<bool> = Vec::new();
        let mut i: usize = 0;
        assert(all.skip(0) =~= all);
        assert(out@ + emitted(start, all) =~= emitted(start, all));
        while i < ids.len()
            invariant
                i <= ids.len(),
                all == ids_view(ids@),
                emitted(start, all) == out@ + emitted(self@, all.skip(i as int)),
                i == 0 ==> self@ == start,
                i > 0 ==> self@ == Some(all[i - 1]),
            decreases ids.len() - i,
        {
            let ghost before = self@;
            let ghost rest = all.skip(i as int);
            let e = self.offer(ids[i].clone_id());
            out.push(e);
            proof {
                assert(rest[0] == all[i as int]);
                assert(rest.drop_first() =~= all.skip(i as int + 1));
                assert(emitted(before, rest) =~= seq![e] + emitted(self@, all.skip(i as int + 1)));
                assert(emitted(start, all) =~= out@ + emitted(self@, all.skip(i as int + 1)));
            }
            i += 1;
        }
        proof {
            assert(all.skip(i as int) =~= Seq::<Seq<i32>>::empty());
            assert(out@ =~= out@ + Seq::<bool>::empty());
            if ids@.len() > 0 {
                assert(all[i - 1] == ids@.last()@);
            }
        }
        out
    }
}

/// Each focus change after the first goes downstream exactly when its element
/// differs from the one before it.
pub proof fn lemma_emitted_at(previous: Option<Seq<i32>>, ids: Seq<Seq<i32>>, k: int)
    requires
        0 <= k < ids.len(),
    ensures
        emitted(previous, ids).len() == ids.len(),
        emitted(previous, ids)[k] == if k == 0 {
            emits(previous, ids[0])
        } else {
            ids[k - 1] != ids[k]
        },
    decreases ids.len(),
{
    let t = ids.drop_first();
    if k > 0 {
        lemma_emitted_at(Some(ids[0]), t, k - 1);
        if k > 1 {
            assert(t[k - 2] == ids[k - 1]);
        }
        assert(t[k - 1] == ids[k]);
    } else if t.len() > 0 {
        lemma_emitted_at(Some(ids[0]), t, 0);
    } else {
        assert(emitted(Some(ids[0]), t) =~= Seq::<bool>::empty());
    }
}

/// A run of focus changes on one element sends at most one event downstream (as
/// `FocusDeduplicator::offer_all` reports them): its
/// first, when that differs from what came before.
pub proof fn lemma_run_emits_once(
    previous: Option<Seq<i32>>,
    ids: Seq<Seq<i32>>,
    i: int,
    j: int,
)
    requires
        0 <= i <= j < ids.len(),
        forall|k: int| i <= k <= j ==> #[trigger] ids[k] == ids[i],
    ensures
        forall|k: int| i < k <= j ==> !(#[trigger] emitted(previous, ids)[k]),
{
    assert forall|k: int| i < k <= j implies !(#[trigger] emitted(previous, ids)[k]) by {
        lemma_emitted_at(previous, ids, k);
        assert(ids[k - 1] == ids[i]);
    }
}

} // verus!

verus! {

/// Two events sent downstream one after the other (nothing sent between them) are
/// about different elements.
pub proof fn lemma_consecutive_emits_differ(
    previous: Option<Seq<i32>>,
    ids: Seq<Seq<i32>>,
    i: int,
    j: int,
)
    requires
        0 <= i < j < ids.len(),
        emitted(previous, ids)[i],
        emitted(previous, ids)[j],
        forall|k: int| i < k < j ==> !(#[trigger] emitted(previous, ids)[k]),
    ensures
        ids[i] != ids[j],
{
    lemma_emitted_at(previous, ids, j);
    lemma_run_from(previous, ids, i, j - 1);
}

/// Positions after `i` that were not sent downstream repeat the element at `i`.
proof fn lemma_run_from(previous: Option<Seq<i32>>, ids: Seq<Seq<i32>>, i: int, m: int)
    requires
        0 <= i <= m < ids.len(),
        forall|k: int| i < k <= m ==> !(#[trigger] emitted(previous, ids)[k]),
    ensures
        ids[m] == ids[i],
    decreases m - i,
{
    if m > i {
        lemma_emitted_at(previous, ids, m);
        lemma_run_from(previous, ids, i, m - 1);
    }
}

} // verus!
