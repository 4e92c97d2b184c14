//! The patch set between two snapshots of a resource.
//!
//! Order of the patches: attribute patches before relationship patches.
//! Within each group, first one patch for each entry of the old snapshot that
//! changed or went away, in the old snapshot's entry order, then one patch for
//! each entry that only the new snapshot has, in the new snapshot's entry
//! order. Relationships are compared by their `data` alone.
use vstd::prelude::*;
use crate::api::{Relationship, RelationshipView, Relationships, Resource};
use crate::map::{JsonMap, NameMap, entries_map, keys_unique, lemma_entries_map_at, has_key};

verus! {

/// One difference between two snapshots of a resource.
#[derive(Clone, Debug)]
pub enum Patch {
    AttributeChanged { name: String, previous: String, next: String },
    AttributeAdded { name: String, value: String },
    AttributeRemoved { name: String, value: String },
    RelationshipChanged { name: String, previous: Relationship, next: Relationship },
    RelationshipAdded { name: String, relationship: Relationship },
    RelationshipRemoved { name: String, relationship: Relationship },
}

/// The view of a `Patch`.
pub enum PatchView {
    AttributeChanged { name: Seq<char>, previous: Seq<char>, next: Seq<char> },
    AttributeAdded { name: Seq<char>, value: Seq<char> },
    AttributeRemoved { name: Seq<char>, value: Seq<char> },
    RelationshipChanged { name: Seq<char>, previous: RelationshipView, next: RelationshipView },
    RelationshipAdded { name: Seq<char>, relationship: RelationshipView },
    RelationshipRemoved { name: Seq<char>, relationship: RelationshipView },
}

impl View for Patch {
    type V = PatchView;

    open spec fn view(&self) -> PatchView {
        match self {
            Patch::AttributeChanged { name, previous, next } => PatchView::AttributeChanged {
                name: name@,
                previous: previous@,
                next: next@,
            },
            Patch::AttributeAdded { name, value } => PatchView::AttributeAdded {
                name: name@,
                value: value@,
            },
            Patch::AttributeRemoved { name, value } => PatchView::AttributeRemoved {
                name: name@,
                value: value@,
            },
            Patch::RelationshipChanged { name, previous, next } => PatchView::RelationshipChanged {
                name: name@,
                previous: previous@,
                next: next@,
            },
            Patch::RelationshipAdded { name, relationship } => PatchView::RelationshipAdded {
                name: name@,
                relationship: relationship@,
            },
            Patch::RelationshipRemoved { name, relationship } => PatchView::RelationshipRemoved {
                name: name@,
                relationship: relationship@,
            },
        }
    }
}

/// The views of a sequence of patches.
pub open spec fn patches_view(s: Seq<Patch>) -> Seq<PatchView> {
    s.map_values(|p: Patch| p@)
}

/// The ordered differences between two snapshots of a resource.
#[derive(Clone, Debug)]
pub struct PatchSet {
    pub patches: Vec<Patch>,
}

impl View for PatchSet {
    type V = Seq<PatchView>;

    open spec fn view(&self) -> Seq<PatchView> {
        patches_view(self.patches@)
    }
}

/// Why two resources could not be compared. Every attribute value of this
/// model is a JSON text and compares as one, so `diff` never reports it.
#[derive(Clone, Copy, Debug, PartialEq, Eq, Structural)]
pub enum DiffError {
    Incomparable,
}

/// Patches for the attribute entries `old` that changed or are missing from `new`.
pub open spec fn attribute_changes(
    old: Seq<(Seq<char>, Seq<char>)>,
    new: Map<Seq<char>, Seq<char>>,
) -> Seq<PatchView>
    decreases old.len(),
{
    if old.len() == 0 {
        Seq::empty()
    } else {
        let before = attribute_changes(old.drop_last(), new);
        let (k, v) = old.last();
        if !new.contains_key(k) {
            before.push(PatchView::AttributeRemoved { name: k, value: v })
        } else if new[k] != v {
            before.push(PatchView::AttributeChanged { name: k, previous: v, next: new[k] })
        } else {
            before
        }
    }
}

/// Patches for the attribute entries `new` whose keys `old` lacks.
pub open spec fn attribute_additions(
    new: Seq<(Seq<char>, Seq<char>)>,
    old: Map<Seq<char>, Seq<char>>,
) -> Seq<PatchView>
    decreases new.len(),
{
    if new.len() == 0 {
        Seq::empty()
    } else {
        let before = attribute_additions(new.drop_last(), old);
        let (k, v) = new.last();
        if !old.contains_key(k) {
            before.push(PatchView::AttributeAdded { name: k, value: v })
        } else {
            before
        }
    }
}

/// Patches for the relationship entries `old` whose data changed or that are
/// missing from `new`.
pub open spec fn relationship_changes(
    old: Seq<(Seq<char>, RelationshipView)>,
    new: Map<Seq<char>, RelationshipView>,
) -> Seq<PatchView>
    decreases old.len(),
{
    if old.len() == 0 {
        Seq::empty()
    } else {
        let before = relationship_changes(old.drop_last(), new);
        let (k, v) = old.last();
        if !new.contains_key(k) {
            before.push(PatchView::RelationshipRemoved { name: k, relationship: v })
        } else if new[k].data != v.data {
            before.push(PatchView::RelationshipChanged { name: k, previous: v, next: new[k] })
        } else {
            before
        }
    }
}

/// Patches for the relationship entries `new` whose names `old` lacks.
pub open spec fn relationship_additions(
    new: Seq<(Seq<char>, RelationshipView)>,
    old: Map<Seq<char>, RelationshipView>,
) -> Seq<PatchView>
    decreases new.len(),
{
    if new.len() == 0 {
        Seq::empty()
    } else {
        let before = relationship_additions(new.drop_last(), old);
        let (k, v) = new.last();
        if !old.contains_key(k) {
            before.push(PatchView::RelationshipAdded { name: k, relationship: v })
        } else {
            before
        }
    }
}

/// The relationship entries of a resource; none when it has no relationships.
pub open spec fn relationship_entries(r: Option<Relationships>) -> Seq<(Seq<char>, RelationshipView)> {
    match r {
        Some(m) => m.entry_seq(),
        None => Seq::empty(),
    }
}

/// The patches from `old` to `new`, in the order described above.
pub open spec fn diff_patches(old: Resource, new: Resource) -> Seq<PatchView> {
    let ro = relationship_entries(old.relationships);
    let rn = relationship_entries(new.relationships);
    attribute_changes(old.attributes.entry_seq(), new.attributes@) + attribute_additions(
        new.attributes.entry_seq(),
        old.attributes@,
    ) + relationship_changes(ro, entries_map(rn)) + relationship_additions(rn, entries_map(ro))
}

fn push_patch(out: &mut Vec<Patch>, p: Patch)
    ensures
        patches_view(final(out)@) == patches_view(old(out)@).push(p@),
{
    out.push(p);
    assert(patches_view(out@) =~= patches_view(old(out)@).push(p@));
}

fn push_attribute_patches(before: &JsonMap, after: &JsonMap, out: &mut Vec<Patch>)
    ensures
        patches_view(final(out)@) == patches_view(old(out)@) + attribute_changes(
            before.entry_seq(),
            after@,
        ) + attribute_additions(after.entry_seq(), before@),
{
    let ghost start = patches_view(out@);
    let n = before.len();
    let mut i: usize = 0;
    while i < n
        invariant
            i <= n,
            n == before.entry_seq().len(),
            patches_view(out@) == start + attribute_changes(before.entry_seq().take(i as int), after@),
        decreases n - i,
    {
        let (k, v) = before.entry(i);
        let ghost prefix = before.entry_seq().take(i + 1);
        assert(prefix.drop_last() =~= before.entry_seq().take(i as int));
        assert(prefix.last() == (k@, v@));
        match after.get(k.as_str()) {
            None => {
                push_patch(out, Patch::AttributeRemoved { name: k.clone(), value: v.clone() });
            },
            Some(w) => {
                if *w != *v {
                    push_patch(out, Patch::AttributeChanged { name: k.clone(), previous: v.clone(), next: w.clone() });
                }
            },
        }
        assert(patches_view(out@) =~= start + attribute_changes(prefix, after@));
        i = i + 1;
    }
    assert(before.entry_seq().take(n as int) =~= before.entry_seq());
    let ghost mid = patches_view(out@);
    let m = after.len();
    let mut j: usize = 0;
    while j < m
        invariant
            j <= m,
            m == after.entry_seq().len(),
            patches_view(out@) == mid + attribute_additions(after.entry_seq().take(j as int), before@),
        decreases m - j,
    {
        let (k, v) = after.entry(j);
        let ghost prefix = after.entry_seq().take(j + 1);
        assert(prefix.drop_last() =~= after.entry_seq().take(j as int));
        assert(prefix.last() == (k@, v@));
        if !before.contains_key(k.as_str()) {
            push_patch(out, Patch::AttributeAdded { name: k.clone(), value: v.clone() });
        }
        assert(patches_view(out@) =~= mid + attribute_additions(prefix, before@));
        j = j + 1;
    }
    assert(after.entry_seq().take(m as int) =~= after.entry_seq());
}

fn push_relationship_patches(before: &Relationships, after: &Relationships, out: &mut Vec<Patch>)
    ensures
        patches_view(final(out)@) == patches_view(old(out)@) + relationship_changes(
            before.entry_seq(),
            after@,
        ) + relationship_additions(after.entry_seq(), before@),
{
    let ghost start = patches_view(out@);
    let n = before.len();
    let mut i: usize = 0;
    while i < n
        invariant
            i <= n,
            n == before.entry_seq().len(),
            patches_view(out@) == start + relationship_changes(before.entry_seq().take(i as int), after@),
        decreases n - i,
    {
        let (k, v) = before.entry(i);
        let ghost prefix = before.entry_seq().take(i + 1);
        assert(prefix.drop_last() =~= before.entry_seq().take(i as int));
        assert(prefix.last() == (k@, v@));
        match after.get(k.as_str()) {
            None => {
                push_patch(out, Patch::RelationshipRemoved { name: k.clone(), relationship: v.duplicate() });
            },
            Some(w) => {
                if !crate::api::same_opt_data(&w.data, &v.data) {
                    push_patch(out, Patch::RelationshipChanged { name: k.clone(), previous: v.duplicate(), next: w.duplicate() });
                }
            },
        }
        assert(patches_view(out@) =~= start + relationship_changes(prefix, after@));
        i = i + 1;
    }
    assert(before.entry_seq().take(n as int) =~= before.entry_seq());
    let ghost mid = patches_view(out@);
    let m = after.len();
    let mut j: usize = 0;
    while j < m
        invariant
            j <= m,
            m == after.entry_seq().len(),
            patches_view(out@) == mid + relationship_additions(after.entry_seq().take(j as int), before@),
        decreases m - j,
    {
        let (k, v) = after.entry(j);
        let ghost prefix = after.entry_seq().take(j + 1);
        assert(prefix.drop_last() =~= after.entry_seq().take(j as int));
        assert(prefix.last() == (k@, v@));
        if !before.contains_key(k.as_str()) {
            push_patch(out, Patch::RelationshipAdded { name: k.clone(), relationship: v.duplicate() });
        }
        assert(patches_view(out@) =~= mid + relationship_additions(prefix, before@));
        j = j + 1;
    }
    assert(after.entry_seq().take(m as int) =~= after.entry_seq());
}

impl Resource {
    /// The patches that lead from this snapshot to `other`. The two are
    /// meant to be snapshots of one resource; that is not checked.
    pub fn diff(&self, other: Resource) -> (r: Result<PatchSet, DiffError>)
        ensures
            r is Ok,
            r->Ok_0@ == diff_patches(*self, other),
    {
        let mut patches: Vec<Patch> = Vec::new();
        push_attribute_patches(&self.attributes, &other.attributes, &mut patches);
        let empty_old: Relationships = NameMap::new();
        let empty_new: Relationships = NameMap::new();
        let ro = match &self.relationships {
            Some(m) => m,
            None => &empty_old,
        };
        let rn = match &other.relationships {
            Some(m) => m,
            None => &empty_new,
        };
        assert(ro.entry_seq() == relationship_entries(self.relationships));
        assert(rn.entry_seq() == relationship_entries(other.relationships));
        push_relationship_patches(ro, rn, &mut patches);
        let r = PatchSet { patches };
        assert(r@ =~= diff_patches(*self, other));
        Ok(r)
    }
}

/// The validity that every resource value has: attribute keys and
/// relationship names are unique.
pub open spec fn resource_wf(r: Resource) -> bool {
    keys_unique(r.attributes.entry_seq()) && keys_unique(relationship_entries(r.relationships))
}

proof fn lemma_attribute_changes_same(s: Seq<(Seq<char>, Seq<char>)>, i: int)
    requires
        keys_unique(s),
        0 <= i <= s.len(),
    ensures
        attribute_changes(s.take(i), entries_map(s)) == Seq::<PatchView>::empty(),
    decreases i,
{
    if i > 0 {
        assert(s.take(i).drop_last() =~= s.take(i - 1));
        lemma_attribute_changes_same(s, i - 1);
        lemma_entries_map_at(s, i - 1);
    }
}

proof fn lemma_attribute_additions_same(s: Seq<(Seq<char>, Seq<char>)>, i: int)
    requires
        keys_unique(s),
        0 <= i <= s.len(),
    ensures
        attribute_additions(s.take(i), entries_map(s)) == Seq::<PatchView>::empty(),
    decreases i,
{
    if i > 0 {
        assert(s.take(i).drop_last() =~= s.take(i - 1));
        lemma_attribute_additions_same(s, i - 1);
        lemma_entries_map_at(s, i - 1);
    }
}

proof fn lemma_relationship_changes_same(s: Seq<(Seq<char>, RelationshipView)>, i: int)
    requires
        keys_unique(s),
        0 <= i <= s.len(),
    ensures
        relationship_changes(s.take(i), entries_map(s)) == Seq::<PatchView>::empty(),
    decreases i,
{
    if i > 0 {
        assert(s.take(i).drop_last() =~= s.take(i - 1));
        lemma_relationship_changes_same(s, i - 1);
        lemma_entries_map_at(s, i - 1);
    }
}

proof fn lemma_relationship_additions_same(s: Seq<(Seq<char>, RelationshipView)>, i: int)
    requires
        keys_unique(s),
        0 <= i <= s.len(),
    ensures
        relationship_additions(s.take(i), entries_map(s)) == Seq::<PatchView>::empty(),
    decreases i,
{
    if i > 0 {
        assert(s.take(i).drop_last() =~= s.take(i - 1));
        lemma_relationship_additions_same(s, i - 1);
        lemma_entries_map_at(s, i - 1);
    }
}

/// No additions when every key of `s` is already a key of `m`.
proof fn lemma_attribute_additions_none(s: Seq<(Seq<char>, Seq<char>)>, m: Map<Seq<char>, Seq<char>>, i: int)
    requires
        0 <= i <= s.len(),
        forall|j: int| 0 <= j < s.len() ==> m.contains_key(#[trigger] s[j].0),
    ensures
        attribute_additions(s.take(i), m) == Seq::<PatchView>::empty(),
    decreases i,
{
    if i > 0 {
        assert(s.take(i).drop_last() =~= s.take(i - 1));
        lemma_attribute_additions_none(s, m, i - 1);
        assert(m.contains_key(s[i - 1].0));
    }
}

/// The relationship patches vanish when both snapshots hold the same relationships.
proof fn lemma_relationship_patches_same(a: Resource, b: Resource)
    requires
        resource_wf(a),
        resource_wf(b),
        crate::api::opt_view(a.relationships) == crate::api::opt_view(b.relationships),
    ensures
        relationship_changes(relationship_entries(a.relationships), entries_map(relationship_entries(b.relationships)))
            + relationship_additions(relationship_entries(b.relationships), entries_map(relationship_entries(a.relationships)))
            == Seq::<PatchView>::empty(),
{
    let ro = relationship_entries(a.relationships);
    let rn = relationship_entries(b.relationships);
    assert(entries_map(ro) == entries_map(rn));
    lemma_relationship_changes_same(ro, ro.len() as int);
    lemma_relationship_additions_same(rn, rn.len() as int);
    assert(ro.take(ro.len() as int) =~= ro);
    assert(rn.take(rn.len() as int) =~= rn);
}

/// A resource compared with itself yields no patch.
pub proof fn lemma_diff_self_empty(a: Resource)
    requires
        resource_wf(a),
    ensures
        diff_patches(a, a) == Seq::<PatchView>::empty(),
{
    let s = a.attributes.entry_seq();
    lemma_attribute_changes_same(s, s.len() as int);
    lemma_attribute_additions_same(s, s.len() as int);
    assert(s.take(s.len() as int) =~= s);
    lemma_relationship_patches_same(a, a);
    assert(diff_patches(a, a) =~= Seq::<PatchView>::empty());
}

/// Diffing the same two snapshots twice gives the same patch sequence.
pub proof fn lemma_diff_deterministic(a: Resource, b: Resource, first: PatchSet, second: PatchSet)
    requires
        first@ == diff_patches(a, b),
        second@ == diff_patches(a, b),
    ensures
        first@ == second@,
{
}

proof fn lemma_attribute_changes_one(
    s: Seq<(Seq<char>, Seq<char>)>,
    m: Map<Seq<char>, Seq<char>>,
    k: Seq<char>,
    i: int,
)
    requires
        keys_unique(s),
        0 <= i <= s.len(),
        m.dom() == entries_map(s).dom(),
        entries_map(s).contains_key(k),
        m[k] != entries_map(s)[k],
        forall|k2: Seq<char>| m.contains_key(k2) && k2 != k ==> m[k2] == entries_map(s)[k2],
    ensures
        attribute_changes(s.take(i), m) == (if has_key(s.take(i), k) {
            seq![PatchView::AttributeChanged { name: k, previous: entries_map(s)[k], next: m[k] }]
        } else {
            Seq::<PatchView>::empty()
        }),
    decreases i,
{
    if i > 0 {
        let p = s.take(i);
        assert(p.drop_last() =~= s.take(i - 1));
        lemma_attribute_changes_one(s, m, k, i - 1);
        lemma_entries_map_at(s, i - 1);
        let q = s.take(i - 1);
        if s[i - 1].0 == k {
            assert(p[i - 1].0 == k);
            assert(has_key(p, k));
            if has_key(q, k) {
                let t = choose|t: int| 0 <= t < q.len() && q[t].0 == k;
                assert(s[t].0 == s[i - 1].0);
            }
        } else {
            assert(has_key(p, k) == has_key(q, k)) by {
                if has_key(p, k) {
                    let t = choose|t: int| 0 <= t < p.len() && p[t].0 == k;
                    assert(q[t].0 == k);
                }
                if has_key(q, k) {
                    let t = choose|t: int| 0 <= t < q.len() && q[t].0 == k;
                    assert(p[t].0 == k);
                }
            }
        }
    }
}

/// Snapshots that differ in the value of exactly one attribute, and in
/// nothing else that the diff reads, yield exactly one `AttributeChanged`.
pub proof fn lemma_diff_one_changed_attribute(a: Resource, b: Resource, k: Seq<char>)
    requires
        resource_wf(a),
        resource_wf(b),
        a.attributes@.dom() == b.attributes@.dom(),
        a.attributes@.contains_key(k),
        a.attributes@[k] != b.attributes@[k],
        forall|k2: Seq<char>|
            a.attributes@.contains_key(k2) && k2 != k ==> a.attributes@[k2] == b.attributes@[k2],
        crate::api::opt_view(a.relationships) == crate::api::opt_view(b.relationships),
    ensures
        diff_patches(a, b) == seq![
            PatchView::AttributeChanged {
                name: k,
                previous: a.attributes@[k],
                next: b.attributes@[k],
            },
        ],
{
    let s = a.attributes.entry_seq();
    let t = b.attributes.entry_seq();
    lemma_attribute_changes_one(s, b.attributes@, k, s.len() as int);
    assert(s.take(s.len() as int) =~= s);
    assert forall|j: int| 0 <= j < t.len() implies a.attributes@.contains_key(#[trigger] t[j].0) by {
        lemma_entries_map_at(t, j);
    }
    lemma_attribute_additions_none(t, a.attributes@, t.len() as int);
    assert(t.take(t.len() as int) =~= t);
    lemma_relationship_patches_same(a, b);
    assert(diff_patches(a, b) =~= seq![
        PatchView::AttributeChanged { name: k, previous: a.attributes@[k], next: b.attributes@[k] },
    ]);
}

/// Old attributes `{x, y}` and new attributes `{y, z}`, with `y` changed,
/// yield exactly three patches: `x` removed, `y` changed, `z` added.
pub proof fn lemma_diff_removed_changed_added(
    a: Resource,
    b: Resource,
    x: Seq<char>,
    y: Seq<char>,
    z: Seq<char>,
    vx: Seq<char>,
    vy: Seq<char>,
    wy: Seq<char>,
    wz: Seq<char>,
)
    requires
        resource_wf(a),
        resource_wf(b),
        a.attributes.entry_seq() == seq![(x, vx), (y, vy)],
        b.attributes.entry_seq() == seq![(y, wy), (z, wz)],
        x != y,
        y != z,
        x != z,
        vy != wy,
        crate::api::opt_view(a.relationships) == crate::api::opt_view(b.relationships),
    ensures
        diff_patches(a, b) == seq![
            PatchView::AttributeRemoved { name: x, value: vx },
            PatchView::AttributeChanged { name: y, previous: vy, next: wy },
            PatchView::AttributeAdded { name: z, value: wz },
        ],
{
    let s = a.attributes.entry_seq();
    let t = b.attributes.entry_seq();
    let ma = a.attributes@;
    let mb = b.attributes@;
    lemma_entries_map_at(s, 0);
    lemma_entries_map_at(s, 1);
    lemma_entries_map_at(t, 0);
    lemma_entries_map_at(t, 1);
    assert(!mb.contains_key(x)) by {
        if has_key(t, x) {
            let j = choose|j: int| 0 <= j < t.len() && t[j].0 == x;
        }
    }
    assert(!ma.contains_key(z)) by {
        if has_key(s, z) {
            let j = choose|j: int| 0 <= j < s.len() && s[j].0 == z;
        }
    }
    assert(s.drop_last() =~= seq![(x, vx)]);
    assert(s.drop_last().drop_last() =~= Seq::<(Seq<char>, Seq<char>)>::empty());
    assert(t.drop_last() =~= seq![(y, wy)]);
    assert(t.drop_last().drop_last() =~= Seq::<(Seq<char>, Seq<char>)>::empty());
    assert(s[0] == (x, vx) && s[1] == (y, vy) && t[0] == (y, wy) && t[1] == (z, wz));
    assert(attribute_changes(s.drop_last().drop_last(), mb) == Seq::<PatchView>::empty());
    assert(s.drop_last().last() == (x, vx));
    assert(attribute_additions(t.drop_last().drop_last(), ma) == Seq::<PatchView>::empty());
    assert(t.drop_last().last() == (y, wy));
    assert(attribute_changes(s.drop_last(), mb) =~= seq![PatchView::AttributeRemoved { name: x, value: vx }]);
    assert(attribute_changes(s, mb) =~= seq![
        PatchView::AttributeRemoved { name: x, value: vx },
        PatchView::AttributeChanged { name: y, previous: vy, next: wy },
    ]);
    assert(attribute_additions(t.drop_last(), ma) =~= Seq::<PatchView>::empty());
    assert(attribute_additions(t, ma) =~= seq![PatchView::AttributeAdded { name: z, value: wz }]);
    lemma_relationship_patches_same(a, b);
    assert(diff_patches(a, b) =~= seq![
        PatchView::AttributeRemoved { name: x, value: vx },
        PatchView::AttributeChanged { name: y, previous: vy, next: wy },
        PatchView::AttributeAdded { name: z, value: wz },
    ]);
}

} // verus!
