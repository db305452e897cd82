use vstd::prelude::*;
use vstd::set_lib::{lemma_int_range, lemma_len_subset, set_int_range};

use crate::color::{color_change_defined, is_color_change, ColorSpaceChange};
use crate::image::ImageKind;
use crate::imspection::SingleImspection;
use crate::threshold::ThrSettings;

verus! {

/// The ids of a sequence of entries, in order.
pub open spec fn ids_of(entries: Seq<SingleImspection>) -> Seq<int> {
    entries.map_values(|e: SingleImspection| e.id as int)
}

/// The entries whose removal flag is clear, in their order.
pub open spec fn kept(entries: Seq<SingleImspection>) -> Seq<SingleImspection>
    decreases entries.len(),
{
    if entries.len() == 0 {
        entries
    } else if entries[0].remove_flag {
        kept(entries.drop_first())
    } else {
        seq![entries[0]].add(kept(entries.drop_first()))
    }
}

/// Whether every integer in `0..bound` is one of `ids`.
pub open spec fn holds_all_below(ids: Seq<int>, bound: int) -> bool {
    forall|j: int| 0 <= j < bound ==> ids.contains(j)
}

/// The registry of inspected images, in display order.
pub struct ImspectApp {
    imspections: Vec<SingleImspection>,
}

impl ImspectApp {
    /// The entries, in display order.
    pub closed spec fn entries(&self) -> Seq<SingleImspection> {
        self.imspections@
    }

    pub open spec fn ids(&self) -> Seq<int> {
        ids_of(self.entries())
    }

    /// Ids are unique and every image is well formed.
    pub open spec fn wf(&self) -> bool {
        &&& self.ids().no_duplicates()
        &&& forall|i: int| 0 <= i < self.entries().len() ==> (#[trigger] self.entries()[i]).image.wf()
    }

    /// One fresh entry per image, with ids `0, 1, ...` in order.
    pub fn new(imgs: Vec<ImageKind>) -> (r: Self)
        requires
            forall|i: int| 0 <= i < imgs@.len() ==> (#[trigger] imgs@[i]).wf(),
        ensures
            r.wf(),
            r.entries().len() == imgs@.len(),
            forall|i: int|
                0 <= i < imgs@.len() ==> (#[trigger] r.entries()[i]).is_fresh(imgs@[i], i as usize),
    {
        let mut imgs = imgs;
        let ghost src = imgs@;
        let n = imgs.len();
        let mut rev: Vec<SingleImspection> = Vec::with_capacity(n);
        // taken from the back, so the entry for image `k` is built with id `k`
        while imgs.len() > 0
            invariant
                imgs@ == src.take(imgs@.len() as int),
                rev@.len() == src.len() - imgs@.len(),
                n == src.len(),
                forall|j: int|
                    0 <= j < rev@.len() ==> (#[trigger] rev@[j]).is_fresh(
                        src[n - 1 - j],
                        (n - 1 - j) as usize,
                    ),
            decreases imgs@.len(),
        {
            let k = imgs.len() - 1;
            let img = imgs.pop().unwrap();
            rev.push(SingleImspection::new(img, k));
            assert(imgs@ =~= src.take(imgs@.len() as int));
        }
        let mut out: Vec<SingleImspection> = Vec::with_capacity(n);
        while rev.len() > 0
            invariant
                rev@.len() + out@.len() == n,
                n == src.len(),
                forall|j: int|
                    0 <= j < rev@.len() ==> (#[trigger] rev@[j]).is_fresh(
                        src[n - 1 - j],
                        (n - 1 - j) as usize,
                    ),
                forall|i: int|
                    0 <= i < out@.len() ==> (#[trigger] out@[i]).is_fresh(src[i], i as usize),
            decreases rev@.len(),
        {
            let e = rev.pop().unwrap();
            out.push(e);
        }
        let r = ImspectApp { imspections: out };
        assert forall|a: int, b: int|
            0 <= a < r.ids().len() && 0 <= b < r.ids().len() && a != b implies r.ids()[a]
            != r.ids()[b] by {
            assert(r.entries()[a].id == a);
            assert(r.entries()[b].id == b);
        }
        r
    }

    /// Number of entries.
    pub fn len(&self) -> (r: usize)
        ensures
            r == self.entries().len(),
    {
        self.imspections.len()
    }

    /// The ids of the entries, in display order.
    pub fn ids_in_order(&self) -> (r: Vec<usize>)
        ensures
            r@.len() == self.entries().len(),
            forall|i: int| 0 <= i < r@.len() ==> #[trigger] r@[i] == self.entries()[i].id,
    {
        let mut r: Vec<usize> = Vec::with_capacity(self.imspections.len());
        let mut i: usize = 0;
        while i < self.imspections.len()
            invariant
                i <= self.entries().len(),
                r@.len() == i,
                forall|j: int| 0 <= j < i ==> #[trigger] r@[j] == self.entries()[j].id,
            decreases self.entries().len() - i,
        {
            r.push(self.imspections[i].id);
            i = i + 1;
        }
        r
    }

    /// Position of the entry with `id`, if it is live.
    pub fn position(&self, id: usize) -> (r: Option<usize>)
        requires
            self.wf(),
        ensures
            r is None <==> !self.ids().contains(id as int),
            r matches Some(i) ==> i < self.entries().len() && self.entries()[i as int].id == id,
    {
        let mut i: usize = 0;
        while i < self.imspections.len()
            invariant
                i <= self.entries().len(),
                forall|j: int| 0 <= j < i ==> (#[trigger] self.entries()[j]).id != id,
            decreases self.entries().len() - i,
        {
            if self.imspections[i].id == id {
                assert(self.ids()[i as int] == id as int);
                return Some(i);
            }
            i = i + 1;
        }
        proof {
            if self.ids().contains(id as int) {
                let j = choose|j: int| 0 <= j < self.ids().len() && self.ids()[j] == id as int;
                assert(self.entries()[j].id != id);
            }
        }
        None
    }

    /// Smallest non-negative integer that no live entry holds as its id.
    pub fn next_available_id(&self) -> (r: usize)
        requires
            self.wf(),
        ensures
            !self.ids().contains(r as int),
            holds_all_below(self.ids(), r as int),
    {
        let n = self.imspections.len();
        let mut candidate: usize = 0;
        loop
            invariant
                self.wf(),
                n == self.entries().len(),
                holds_all_below(self.ids(), candidate as int),
                candidate <= self.entries().len(),
            decreases self.entries().len() - candidate,
        {
            match self.position(candidate) {
                None => {
                    return candidate;
                },
                Some(i) => {
                    proof {
                        assert(self.ids()[i as int] == candidate as int);
                        lemma_ids_cover_bound(self.ids(), candidate as int + 1);
                    }
                    candidate = candidate + 1;
                },
            }
        }
    }

    /// The entry with `id`, or `None` when no live entry holds it.
    pub fn get(&self, id: usize) -> (r: Option<&SingleImspection>)
        requires
            self.wf(),
        ensures
            r is None <==> !self.ids().contains(id as int),
            r matches Some(e) ==> e.id == id && self.entries().contains(*e),
    {
        match self.position(id) {
            Some(i) => Some(&self.imspections[i]),
            None => None,
        }
    }

    /// Appends a fresh entry for `image` under the unused `id`.
    pub fn add(&mut self, image: ImageKind, id: usize)
        requires
            old(self).wf(),
            image.wf(),
            !old(self).ids().contains(id as int),
        ensures
            final(self).wf(),
            final(self).entries().len() == old(self).entries().len() + 1,
            final(self).entries().drop_last() == old(self).entries(),
            final(self).entries().last().is_fresh(image, id),
    {
        self.push_entry(SingleImspection::new(image, id));
    }

    fn push_entry(&mut self, e: SingleImspection)
        requires
            old(self).wf(),
            e.image.wf(),
            !old(self).ids().contains(e.id as int),
        ensures
            final(self).wf(),
            final(self).entries() == old(self).entries().push(e),
    {
        let ghost before = self.ids();
        self.imspections.push(e);
        assert(self.ids() =~= before.push(e.id as int));
    }

    /// Sets the removal flag of the entry with `id`; nothing happens when no
    /// live entry holds it. Idempotent.
    pub fn mark_for_removal(&mut self, id: usize)
        requires
            old(self).wf(),
        ensures
            final(self).wf(),
            final(self).entries().len() == old(self).entries().len(),
            forall|i: int|
                0 <= i < old(self).entries().len() ==> (#[trigger] final(self).entries()[i]) == (
                if old(self).entries()[i].id == id {
                    SingleImspection { remove_flag: true, ..old(self).entries()[i] }
                } else {
                    old(self).entries()[i]
                }),
    {
        match self.position(id) {
            Some(i) => {
                let ghost before = self.ids();
                self.imspections[i].remove_flag = true;
                assert(self.ids() =~= before);
                proof {
                    assert forall|k: int| 0 <= k < before.len() && k != i implies old(
                        self,
                    ).entries()[k].id != id by {
                        assert(before[k] != before[i as int]);
                    }
                }
            },
            None => {
                proof {
                    assert forall|k: int| 0 <= k < old(self).entries().len() implies old(
                        self,
                    ).entries()[k].id != id by {
                        assert(self.ids()[k] == old(self).entries()[k].id);
                    }
                }
            },
        }
    }

    /// Replaces the threshold settings of the entry with `id` and asks for it
    /// to be drawn again; `false`, with nothing changed, when no live entry
    /// holds `id`.
    pub fn set_threshold(&mut self, id: usize, thr: ThrSettings) -> (r: bool)
        requires
            old(self).wf(),
        ensures
            final(self).wf(),
            r == old(self).ids().contains(id as int),
            final(self).entries().len() == old(self).entries().len(),
            forall|i: int|
                0 <= i < old(self).entries().len() ==> (#[trigger] final(self).entries()[i]) == (
                if old(self).entries()[i].id == id {
                    SingleImspection { thr, need_rerender: true, ..old(self).entries()[i] }
                } else {
                    old(self).entries()[i]
                }),
    {
        match self.position(id) {
            Some(i) => {
                let ghost before = self.ids();
                self.imspections[i].thr = thr;
                self.imspections[i].need_rerender = true;
                assert(self.ids() =~= before);
                proof {
                    assert forall|k: int| 0 <= k < before.len() && k != i implies old(
                        self,
                    ).entries()[k].id != id by {
                        assert(before[k] != before[i as int]);
                    }
                }
                true
            },
            None => {
                proof {
                    assert forall|k: int| 0 <= k < old(self).entries().len() implies old(
                        self,
                    ).entries()[k].id != id by {
                        assert(self.ids()[k] == old(self).entries()[k].id);
                    }
                }
                false
            },
        }
    }

    /// Drops, in one pass, every entry whose removal flag is set; the others
    /// keep their order.
    pub fn remove_marked_imspections(&mut self)
        requires
            old(self).wf(),
        ensures
            final(self).wf(),
            final(self).entries() == kept(old(self).entries()),
    {
        let ghost src = self.entries();
        let mut idx = self.imspections.len();
        while idx > 0
            invariant
                idx <= src.len(),
                self.imspections@ == src.take(idx as int).add(kept(src.skip(idx as int))),
            decreases idx,
        {
            idx = idx - 1;
            proof {
                assert(src.skip(idx as int)[0] == src[idx as int]);
                assert(src.skip(idx as int).drop_first() =~= src.skip(idx + 1));
                assert(src.take(idx + 1) =~= src.take(idx as int).push(src[idx as int]));
            }
            if self.imspections[idx].remove_flag {
                self.imspections.remove(idx);
                assert(self.imspections@ =~= src.take(idx as int).add(kept(src.skip(idx as int))));
            } else {
                assert(self.imspections@ =~= src.take(idx as int).add(kept(src.skip(idx as int))));
            }
        }
        assert(src.skip(0) =~= src);
        assert(self.imspections@ =~= kept(src));
        proof {
            lemma_kept_preserves(src, |e: SingleImspection| e.image.wf());
            lemma_kept_ids_unique(src);
        }
    }

    /// Derives a new entry from the one with `id` by `color` and appends it
    /// under the smallest free id, which is returned. `None`, with nothing
    /// changed, when no live entry holds `id` or the change is not defined
    /// for its image. `samples` as in `ImageKind::change_color`.
    pub fn apply_color_conversion(
        &mut self,
        id: usize,
        color: ColorSpaceChange,
        samples: Option<Vec<u8>>,
    ) -> (r: Option<usize>)
        requires
            old(self).wf(),
        ensures
            final(self).wf(),
            r is Some <==> (old(self).ids().contains(id as int) && color_change_defined(
                old(self).entries()[entry_index(old(self).entries(), id)].image,
                color,
                samples,
            )),
            r is None ==> final(self).entries() == old(self).entries(),
            r matches Some(nid) ==> {
                &&& !old(self).ids().contains(nid as int)
                &&& holds_all_below(old(self).ids(), nid as int)
                &&& final(self).entries().len() == old(self).entries().len() + 1
                &&& final(self).entries().drop_last() == old(self).entries()
                &&& final(self).entries().last().id == nid
                &&& final(self).entries().last().need_rerender
                &&& !final(self).entries().last().remove_flag
                &&& final(self).entries().last().thr.is_default()
                &&& is_color_change(
                    old(self).entries()[entry_index(old(self).entries(), id)].image,
                    color,
                    samples,
                    final(self).entries().last().image,
                )
            },
    {
        match self.position(id) {
            None => None,
            Some(i) => {
                proof {
                    let j = entry_index(self.entries(), id);
                    assert(self.ids()[i as int] == id as int);
                    assert(self.ids()[j] == id as int);
                }
                let nid = self.next_available_id();
                match self.imspections[i].new_with_changed_color(color, nid, samples) {
                    None => None,
                    Some(e) => {
                        let ghost before = self.entries();
                        self.push_entry(e);
                        assert(self.entries().drop_last() =~= before);
                        Some(nid)
                    },
                }
            },
        }
    }
}

/// Index of the entry holding `id`.
pub open spec fn entry_index(entries: Seq<SingleImspection>, id: usize) -> int {
    choose|i: int| 0 <= i < entries.len() && entries[i].id == id
}

/// A property of every entry holds of every entry that survives a sweep.
pub proof fn lemma_kept_preserves(s: Seq<SingleImspection>, p: spec_fn(SingleImspection) -> bool)
    requires
        forall|i: int| 0 <= i < s.len() ==> p(#[trigger] s[i]),
    ensures
        forall|k: int| 0 <= k < kept(s).len() ==> p(#[trigger] kept(s)[k]),
        kept(s).len() <= s.len(),
    decreases s.len(),
{
    if s.len() > 0 {
        let rest = s.drop_first();
        assert forall|i: int| 0 <= i < rest.len() implies p(#[trigger] rest[i]) by {
            assert(rest[i] == s[i + 1]);
        }
        lemma_kept_preserves(rest, p);
        if !s[0].remove_flag {
            assert forall|k: int| 0 <= k < kept(s).len() implies p(#[trigger] kept(s)[k]) by {
                if k > 0 {
                    assert(kept(s)[k] == kept(rest)[k - 1]);
                }
            }
        }
    }
}

/// A sweep keeps ids unique.
pub proof fn lemma_kept_ids_unique(s: Seq<SingleImspection>)
    requires
        ids_of(s).no_duplicates(),
    ensures
        ids_of(kept(s)).no_duplicates(),
    decreases s.len(),
{
    if s.len() > 0 {
        let rest = s.drop_first();
        assert(ids_of(rest) =~= ids_of(s).drop_first());
        lemma_kept_ids_unique(rest);
        if !s[0].remove_flag {
            let v = s[0].id;
            assert forall|i: int| 0 <= i < rest.len() implies (#[trigger] rest[i]).id != v by {
                assert(ids_of(s)[i + 1] != ids_of(s)[0]);
            }
            lemma_kept_preserves(rest, |e: SingleImspection| e.id != v);
            let k = kept(s);
            let kr = kept(rest);
            assert forall|a: int, b: int|
                0 <= a < k.len() && 0 <= b < k.len() && a != b implies ids_of(k)[a] != ids_of(
                k,
            )[b] by {
                if a > 0 && b > 0 {
                    assert(ids_of(kr)[a - 1] != ids_of(kr)[b - 1]);
                } else if a == 0 {
                    assert(kr[b - 1].id != v);
                } else {
                    assert(kr[a - 1].id != v);
                }
            }
        }
    }
}

/// If every integer below `bound` is among `ids`, there are at least `bound`
/// ids.
pub proof fn lemma_ids_cover_bound(ids: Seq<int>, bound: int)
    requires
        0 <= bound,
        holds_all_below(ids, bound),
    ensures
        bound <= ids.len(),
{
    let range = set_int_range(0, bound);
    lemma_int_range(0, bound);
    assert(range.subset_of(ids.to_set()));
    ids.lemma_cardinality_of_set();
    lemma_len_subset(range, ids.to_set());
}

/// The predicate of the entries that a sweep keeps.
pub open spec fn unflagged() -> spec_fn(SingleImspection) -> bool {
    |e: SingleImspection| !e.remove_flag
}

/// A sweep keeps exactly the entries whose removal flag is clear, in their
/// order: it is the filter of the entries by that predicate.
pub proof fn lemma_sweep_is_filter(s: Seq<SingleImspection>)
    ensures
        kept(s) == s.filter(unflagged()),
    decreases s.len(),
{
    if s.len() == 0 {
        assert(s.filter(unflagged()) =~= s);
    } else {
        let rest = s.drop_first();
        lemma_sweep_is_filter(rest);
        assert(s =~= seq![s[0]] + rest);
        rest.lemma_filter_prepend(s[0], unflagged());
        if s[0].remove_flag {
            assert(Seq::<SingleImspection>::empty() + rest.filter(unflagged()) =~= rest.filter(
                unflagged(),
            ));
        }
    }
}

/// Sweeping twice leaves what sweeping once left, and no entry that a sweep
/// leaves is flagged for removal.
pub proof fn lemma_sweep_idempotent(s: Seq<SingleImspection>)
    ensures
        kept(kept(s)) == kept(s),
        forall|k: int| 0 <= k < kept(s).len() ==> !(#[trigger] kept(s)[k]).remove_flag,
    decreases s.len(),
{
    if s.len() > 0 {
        let rest = s.drop_first();
        lemma_sweep_idempotent(rest);
        if !s[0].remove_flag {
            let k = kept(s);
            assert(k[0] == s[0]);
            assert(k.drop_first() =~= kept(rest));
            assert forall|j: int| 0 <= j < k.len() implies !(#[trigger] k[j]).remove_flag by {
                if j > 0 {
                    assert(k[j] == kept(rest)[j - 1]);
                }
            }
        }
    }
}

} // verus!
