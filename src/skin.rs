use vstd::prelude::*;

verus! {

/// The key under which a skin holds an attachment: the slot index and the attachment's name.
pub type AttachmentKey = (u32, Seq<char>);

/// One attachment of a skin: under `(slot, name)` it places the attachment `attachment`.
pub struct SkinEntry {
    pub slot: u32,
    pub name: String,
    pub attachment: u32,
}

pub open spec fn entry_key(e: SkinEntry) -> AttachmentKey {
    (e.slot, e.name@)
}

/// The attachment map that a list of entries spells out, a later entry replacing an
/// earlier one under the same key.
pub open spec fn entries_map(s: Seq<SkinEntry>) -> Map<AttachmentKey, u32>
    decreases s.len(),
{
    if s.len() == 0 {
        Map::empty()
    } else {
        entries_map(s.drop_last()).insert(entry_key(s.last()), s.last().attachment)
    }
}

pub open spec fn keys_unique(s: Seq<SkinEntry>) -> bool {
    forall|i: int, j: int|
        0 <= i < j < s.len() ==> entry_key(#[trigger] s[i]) != entry_key(#[trigger] s[j])
}

/// A named set of attachments, at most one under each key.
pub struct Skin {
    name: String,
    entries: Vec<SkinEntry>,
}

proof fn lemma_entries_map_domain(s: Seq<SkinEntry>, k: AttachmentKey)
    ensures
        entries_map(s).contains_key(k) <==> exists|i: int| 0 <= i < s.len() && entry_key(#[trigger] s[i]) == k,
    decreases s.len(),
{
    if s.len() > 0 {
        lemma_entries_map_domain(s.drop_last(), k);
        if entries_map(s.drop_last()).contains_key(k) {
            let i = choose|i: int| 0 <= i < s.drop_last().len() && entry_key(#[trigger] s.drop_last()[i]) == k;
            assert(entry_key(s[i]) == k);
        }
        if exists|i: int| 0 <= i < s.len() && entry_key(#[trigger] s[i]) == k {
            let i = choose|i: int| 0 <= i < s.len() && entry_key(#[trigger] s[i]) == k;
            if i < s.len() - 1 {
                assert(entry_key(s.drop_last()[i]) == k);
            }
        }
    }
}

proof fn lemma_entries_map_lookup(s: Seq<SkinEntry>, i: int)
    requires
        keys_unique(s),
        0 <= i < s.len(),
    ensures
        entries_map(s).contains_key(entry_key(s[i])),
        entries_map(s)[entry_key(s[i])] == s[i].attachment,
    decreases s.len(),
{
    if i < s.len() - 1 {
        assert(keys_unique(s.drop_last()));
        assert(s.drop_last()[i] == s[i]);
        lemma_entries_map_lookup(s.drop_last(), i);
        assert(entry_key(s[i]) != entry_key(s[s.len() - 1]));
    }
}

proof fn lemma_entries_map_update(s: Seq<SkinEntry>, i: int, e: SkinEntry)
    requires
        keys_unique(s),
        0 <= i < s.len(),
        entry_key(s[i]) == entry_key(e),
    ensures
        keys_unique(s.update(i, e)),
        entries_map(s.update(i, e)) == entries_map(s).insert(entry_key(e), e.attachment),
    decreases s.len(),
{
    let t = s.update(i, e);
    assert forall|a: int, b: int| 0 <= a < b < t.len() implies entry_key(#[trigger] t[a]) != entry_key(#[trigger] t[b]) by {
        assert(entry_key(t[a]) == entry_key(s[a]));
        assert(entry_key(t[b]) == entry_key(s[b]));
    }
    if i == s.len() - 1 {
        assert(t.drop_last() =~= s.drop_last());
        assert(entries_map(t) =~= entries_map(s).insert(entry_key(e), e.attachment));
    } else {
        assert(t.drop_last() =~= s.drop_last().update(i, e));
        assert(keys_unique(s.drop_last()));
        lemma_entries_map_update(s.drop_last(), i, e);
        assert(entry_key(s[i]) != entry_key(s[s.len() - 1]));
        assert(entries_map(t) =~= entries_map(s).insert(entry_key(e), e.attachment));
    }
}

impl Skin {
    pub closed spec fn spec_name(&self) -> Seq<char> {
        self.name@
    }

    /// What the skin places under each key.
    pub closed spec fn attachments(&self) -> Map<AttachmentKey, u32> {
        entries_map(self.entries@)
    }

    pub closed spec fn entries_view(&self) -> Seq<SkinEntry> {
        self.entries@
    }

    pub closed spec fn wf(&self) -> bool {
        keys_unique(self.entries@)
    }

    /// An empty skin.
    pub fn new(name: String) -> (r: Skin)
        ensures
            r.wf(),
            r.spec_name() == name@,
            r.attachments() == Map::<AttachmentKey, u32>::empty(),
    {
        let r = Skin { name, entries: Vec::new() };
        assert(r.attachments() =~= Map::<AttachmentKey, u32>::empty());
        r
    }

    pub fn name(&self) -> (r: &String)
        ensures
            r@ == self.spec_name(),
    {
        &self.name
    }

    /// The skin's entries, one per key.
    pub fn entries(&self) -> (r: &[SkinEntry])
        requires
            self.wf(),
        ensures
            r@ == self.entries_view(),
            keys_unique(r@),
            entries_map(r@) == self.attachments(),
    {
        self.entries.as_slice()
    }

    fn position(&self, slot: u32, name: &String) -> (r: Option<usize>)
        requires
            self.wf(),
        ensures
            match r {
                Some(i) => i < self.entries@.len() && entry_key(self.entries@[i as int]) == (slot, name@),
                None => !self.attachments().contains_key((slot, name@)),
            },
    {
        let mut i: usize = 0;
        while i < self.entries.len()
            invariant
                i <= self.entries@.len(),
                forall|j: int| 0 <= j < i ==> entry_key(#[trigger] self.entries@[j]) != (slot, name@),
            decreases self.entries@.len() - i,
        {
            let e = &self.entries[i];
            if e.slot == slot && e.name == *name {
                return Some(i);
            }
            i = i + 1;
        }
        proof {
            lemma_entries_map_domain(self.entries@, (slot, name@));
        }
        None
    }

    /// The attachment placed under `(slot, name)`, if any.
    pub fn get_attachment(&self, slot: u32, name: &String) -> (r: Option<u32>)
        requires
            self.wf(),
        ensures
            r == (if self.attachments().contains_key((slot, name@)) {
                Some(self.attachments()[(slot, name@)])
            } else {
                None::<u32>
            }),
    {
        match self.position(slot, name) {
            Some(i) => {
                proof {
                    lemma_entries_map_lookup(self.entries@, i as int);
                }
                Some(self.entries[i].attachment)
            },
            None => None,
        }
    }

    /// Places `attachment` under `(slot, name)`, replacing what was there.
    pub fn set_attachment(&mut self, slot: u32, name: String, attachment: u32)
        requires
            old(self).wf(),
        ensures
            final(self).wf(),
            final(self).spec_name() == old(self).spec_name(),
            final(self).attachments() == old(self).attachments().insert((slot, name@), attachment),
    {
        let ghost key = (slot, name@);
        match self.position(slot, &name) {
            Some(i) => {
                let e = SkinEntry { slot, name, attachment };
                proof {
                    lemma_entries_map_update(self.entries@, i as int, e);
                }
                self.entries.set(i, e);
            },
            None => {
                proof {
                    lemma_entries_map_domain(self.entries@, key);
                    assert forall|a: int, b: int|
                        0 <= a < b < self.entries@.len() + 1 implies entry_key(
                        #[trigger] self.entries@.push(SkinEntry { slot, name, attachment })[a],
                    ) != entry_key(#[trigger] self.entries@.push(SkinEntry { slot, name, attachment })[b]) by {
                        if b == self.entries@.len() {
                            assert(entry_key(self.entries@[a]) != key);
                        }
                    }
                }
                let ghost before = self.entries@;
                self.entries.push(SkinEntry { slot, name, attachment });
                proof {
                    assert(self.entries@.drop_last() =~= before);
                }
            },
        }
    }

    /// Layers `other` over this skin: each of its attachments replaces what this skin
    /// holds under the same key.
    pub fn add_skin(&mut self, other: &Skin)
        requires
            old(self).wf(),
        ensures
            final(self).wf(),
            final(self).spec_name() == old(self).spec_name(),
            final(self).attachments() == old(self).attachments().union_prefer_right(other.attachments()),
    {
        let ghost start = self.attachments();
        let mut j: usize = 0;
        while j < other.entries.len()
            invariant
                j <= other.entries@.len(),
                self.wf(),
                self.spec_name() == old(self).spec_name(),
                start == old(self).attachments(),
                self.attachments() == start.union_prefer_right(
                    entries_map(other.entries@.take(j as int)),
                ),
            decreases other.entries@.len() - j,
        {
            let e = &other.entries[j];
            let ghost prefix = entries_map(other.entries@.take(j as int));
            self.set_attachment(e.slot, e.name.clone(), e.attachment);
            proof {
                assert(other.entries@.take(j + 1).drop_last() =~= other.entries@.take(j as int));
                assert(start.union_prefer_right(entries_map(other.entries@.take(j + 1))) =~= start.union_prefer_right(prefix).insert(entry_key(*e), e.attachment));
            }
            j = j + 1;
        }
        proof {
            assert(other.entries@.take(other.entries@.len() as int) =~= other.entries@);
        }
    }
}


/// A skin cannot be composed because a skin it names is absent from the catalog.
#[derive(Debug)]
pub enum ComposeError {
    SkinNotFound(String),
}

/// `i` is the first position of a skin called `name`.
pub open spec fn is_first_named(skins: Seq<Skin>, name: Seq<char>, i: int) -> bool {
    &&& 0 <= i < skins.len()
    &&& skins[i].spec_name() == name
    &&& forall|j: int| 0 <= j < i ==> (#[trigger] skins[j]).spec_name() != name
}

/// Where lookup by name finds a skin: the first one of that name.
pub open spec fn skin_index(skins: Seq<Skin>, name: Seq<char>) -> Option<int> {
    if exists|i: int| is_first_named(skins, name, i) {
        Some(choose|i: int| is_first_named(skins, name, i))
    } else {
        None
    }
}

/// The positions of the skins named by `names`, in order, or the first name that
/// no skin carries.
pub open spec fn resolve_names(skins: Seq<Skin>, names: Seq<Seq<char>>) -> Result<Seq<int>, Seq<char>>
    decreases names.len(),
{
    if names.len() == 0 {
        Ok(Seq::empty())
    } else {
        match resolve_names(skins, names.drop_last()) {
            Err(missing) => Err(missing),
            Ok(found) => match skin_index(skins, names.last()) {
                Some(i) => Ok(found.push(i)),
                None => Err(names.last()),
            },
        }
    }
}

/// The names a composition looks up: the base, then each overlay in order.
pub open spec fn layer_names(base: Seq<char>, overlays: Seq<String>) -> Seq<Seq<char>> {
    seq![base] + overlays.map_values(|s: String| s@)
}

/// The attachments of the given skins layered in order, a later layer winning on a
/// shared key.
pub open spec fn composed(skins: Seq<Skin>, layers: Seq<int>) -> Map<AttachmentKey, u32>
    decreases layers.len(),
{
    if layers.len() == 0 {
        Map::empty()
    } else {
        composed(skins, layers.drop_last()).union_prefer_right(skins[layers.last()].attachments())
    }
}

pub open spec fn indices_view(v: Seq<usize>) -> Seq<int> {
    v.map_values(|i: usize| i as int)
}

/// The skins of a skeleton, looked up by name.
pub struct SkinCatalog {
    skins: Vec<Skin>,
}

impl View for SkinCatalog {
    type V = Seq<Skin>;

    closed spec fn view(&self) -> Seq<Skin> {
        self.skins@
    }
}

impl SkinCatalog {
    pub open spec fn wf(&self) -> bool {
        forall|i: int| 0 <= i < self@.len() ==> (#[trigger] self@[i]).wf()
    }

    pub fn new() -> (r: SkinCatalog)
        ensures
            r.wf(),
            r@ == Seq::<Skin>::empty(),
    {
        SkinCatalog { skins: Vec::new() }
    }

    /// Adds a skin after those already held.
    pub fn add(&mut self, skin: Skin)
        requires
            old(self).wf(),
            skin.wf(),
        ensures
            final(self).wf(),
            final(self)@ == old(self)@.push(skin),
    {
        let ghost before = self.skins@;
        let ghost added = skin;
        self.skins.push(skin);
        assert forall|i: int| 0 <= i < self@.len() implies (#[trigger] self@[i]).wf() by {
            if i < before.len() {
                assert(self@[i] == before[i]);
                assert(old(self)@[i].wf());
            } else {
                assert(self@[i] == added);
            }
        }
    }

    pub fn len(&self) -> (r: usize)
        ensures
            r == self@.len(),
    {
        self.skins.len()
    }

    pub fn get(&self, i: usize) -> (r: &Skin)
        requires
            i < self@.len(),
        ensures
            *r == self@[i as int],
    {
        &self.skins[i]
    }

    /// The position of the first skin called `name`.
    pub fn find_skin(&self, name: &String) -> (r: Option<usize>)
        ensures
            match r {
                Some(i) => skin_index(self@, name@) == Some(i as int),
                None => skin_index(self@, name@) is None,
            },
    {
        let mut i: usize = 0;
        while i < self.skins.len()
            invariant
                i <= self@.len(),
                forall|j: int| 0 <= j < i ==> (#[trigger] self@[j]).spec_name() != name@,
            decreases self@.len() - i,
        {
            if self.skins[i].name == *name {
                assert(is_first_named(self@, name@, i as int));
                return Some(i);
            }
            i = i + 1;
        }
        None
    }

    /// The positions of the base skin and of each overlay, in layering order.
    pub fn resolve_layers(&self, base: &String, overlays: &[String]) -> (r: Result<Vec<usize>, ComposeError>)
        ensures
            match r {
                Ok(found) => resolve_names(self@, layer_names(base@, overlays@)) == Ok::<Seq<int>, Seq<char>>(indices_view(found@)),
                Err(ComposeError::SkinNotFound(n)) => resolve_names(self@, layer_names(base@, overlays@)) == Err::<Seq<int>, Seq<char>>(n@),
            },
    {
        let ghost names = layer_names(base@, overlays@);
        let mut found: Vec<usize> = Vec::new();
        proof {
            assert(names.take(1).drop_last() =~= Seq::<Seq<char>>::empty());
            assert(names.take(1).last() == base@);
        }
        match self.find_skin(base) {
            Some(i) => found.push(i),
            None => {
                proof {
                    assert(names.take(0) =~= Seq::<Seq<char>>::empty());
                    assert(names[0] == base@);
                    lemma_resolve_names_stops(self@, names, 1);
                }
                return Err(ComposeError::SkinNotFound(base.clone()));
            },
        }
        proof {
            let first = names.take(1);
            assert(first.drop_last() =~= Seq::<Seq<char>>::empty());
            assert(resolve_names(self@, Seq::<Seq<char>>::empty()) == Ok::<Seq<int>, Seq<char>>(Seq::empty()));
            assert(resolve_names(self@, first) == Ok::<Seq<int>, Seq<char>>(Seq::<int>::empty().push(found@[0] as int)));
            assert(indices_view(found@) =~= Seq::<int>::empty().push(found@[0] as int));
        }
        let mut k: usize = 0;
        while k < overlays.len()
            invariant
                k <= overlays@.len(),
                names == layer_names(base@, overlays@),
                names.len() == overlays@.len() + 1,
                resolve_names(self@, names.take(k + 1)) == Ok::<Seq<int>, Seq<char>>(indices_view(found@)),
            decreases overlays@.len() - k,
        {
            proof {
                assert(names.take(k + 2).drop_last() =~= names.take(k + 1));
                assert(names.take(k + 2).last() == overlays@[k as int]@);
            }
            match self.find_skin(&overlays[k]) {
                Some(i) => {
                    let ghost before = found@;
                    found.push(i);
                    proof {
                        assert(indices_view(found@) =~= indices_view(before).push(i as int));
                    }
                },
                None => {
                    proof {
                        lemma_resolve_names_stops(self@, names, k + 2);
                    }
                    return Err(ComposeError::SkinNotFound(overlays[k].clone()));
                },
            }
            k = k + 1;
        }
        proof {
            assert(names.take(overlays@.len() + 1 as int) =~= names);
        }
        Ok(found)
    }

    /// A fresh skin, named after the base, holding the base's attachments with each
    /// overlay layered over them in order. The catalog's skins are left as they are.
    pub fn compose(&self, base: &String, overlays: &[String]) -> (r: Result<Skin, ComposeError>)
        requires
            self.wf(),
        ensures
            match r {
                Ok(skin) => {
                    &&& resolve_names(self@, layer_names(base@, overlays@)) is Ok
                    &&& skin.wf()
                    &&& skin.spec_name() == base@
                    &&& skin.attachments() == composed(self@, resolve_names(self@, layer_names(base@, overlays@))->Ok_0)
                },
                Err(ComposeError::SkinNotFound(n)) => resolve_names(self@, layer_names(base@, overlays@)) == Err::<Seq<int>, Seq<char>>(n@),
            },
    {
        let layers = self.resolve_layers(base, overlays)?;
        let ghost lv = indices_view(layers@);
        proof {
            lemma_resolve_names_in_range(self@, layer_names(base@, overlays@));
        }
        let mut skin = Skin::new(base.clone());
        let mut k: usize = 0;
        while k < layers.len()
            invariant
                k <= layers@.len(),
                lv == indices_view(layers@),
                forall|j: int| 0 <= j < lv.len() ==> 0 <= #[trigger] lv[j] < self@.len(),
                self.wf(),
                skin.wf(),
                skin.spec_name() == base@,
                skin.attachments() == composed(self@, lv.take(k as int)),
            decreases layers@.len() - k,
        {
            assert(lv[k as int] == layers@[k as int] as int);
            skin.add_skin(&self.skins[layers[k]]);
            proof {
                assert(lv.take(k + 1).drop_last() =~= lv.take(k as int));
            }
            k = k + 1;
        }
        proof {
            assert(lv.take(lv.len() as int) =~= lv);
        }
        Ok(skin)
    }
}

proof fn lemma_resolve_names_stops(skins: Seq<Skin>, names: Seq<Seq<char>>, n: int)
    requires
        1 <= n <= names.len(),
        resolve_names(skins, names.take(n - 1)) is Ok,
        skin_index(skins, names[n - 1]) is None,
    ensures
        resolve_names(skins, names) == Err::<Seq<int>, Seq<char>>(names[n - 1]),
    decreases names.len(),
{
    if n < names.len() {
        assert(names.drop_last().take(n - 1) =~= names.take(n - 1));
        lemma_resolve_names_stops(skins, names.drop_last(), n);
    } else {
        assert(names.drop_last() =~= names.take(n - 1));
    }
}

proof fn lemma_resolve_names_in_range(skins: Seq<Skin>, names: Seq<Seq<char>>)
    ensures
        resolve_names(skins, names) is Ok ==> {
            let found = resolve_names(skins, names)->Ok_0;
            &&& found.len() == names.len()
            &&& forall|j: int| 0 <= j < found.len() ==> 0 <= #[trigger] found[j] < skins.len()
        },
    decreases names.len(),
{
    if names.len() > 0 {
        lemma_resolve_names_in_range(skins, names.drop_last());
        match skin_index(skins, names.last()) {
            Some(i) => {
                let w = choose|w: int| is_first_named(skins, names.last(), w);
                assert(0 <= w < skins.len());
            },
            None => {},
        }
    }
}

/// Composing a base skin with no overlays gives exactly the base's attachments.
pub proof fn lemma_compose_identity(skins: Seq<Skin>, base: int)
    requires
        0 <= base < skins.len(),
    ensures
        composed(skins, seq![base]) == skins[base].attachments(),
{
    assert(seq![base].drop_last() =~= Seq::<int>::empty());
    assert(composed(skins, Seq::<int>::empty()) == Map::<AttachmentKey, u32>::empty());
    assert(composed(skins, seq![base]) =~= skins[base].attachments());
}

/// Under a key, the composition holds what the last layer that has the key places there.
pub proof fn lemma_last_writer_wins(skins: Seq<Skin>, layers: Seq<int>, t: int, k: AttachmentKey)
    requires
        0 <= t < layers.len(),
        skins[layers[t]].attachments().contains_key(k),
        forall|j: int| t < j < layers.len() ==> !(#[trigger] skins[layers[j]]).attachments().contains_key(k),
    ensures
        composed(skins, layers).contains_key(k),
        composed(skins, layers)[k] == skins[layers[t]].attachments()[k],
    decreases layers.len(),
{
    if t < layers.len() - 1 {
        let d = layers.drop_last();
        assert forall|j: int| t < j < d.len() implies !(#[trigger] skins[d[j]]).attachments().contains_key(k) by {
            assert(d[j] == layers[j]);
        }
        lemma_last_writer_wins(skins, d, t, k);
        assert(!skins[layers[layers.len() - 1]].attachments().contains_key(k));
    }
}

/// Two overlays that both place something under one key: whichever comes last decides
/// what the composition holds there.
pub proof fn lemma_overlay_order_decides(skins: Seq<Skin>, base: int, a: int, b: int, k: AttachmentKey)
    requires
        0 <= base < skins.len(),
        0 <= a < skins.len(),
        0 <= b < skins.len(),
        skins[a].attachments().contains_key(k),
        skins[b].attachments().contains_key(k),
    ensures
        composed(skins, seq![base, a, b])[k] == skins[b].attachments()[k],
        composed(skins, seq![base, b, a])[k] == skins[a].attachments()[k],
{
    lemma_last_writer_wins(skins, seq![base, a, b], 2, k);
    lemma_last_writer_wins(skins, seq![base, b, a], 2, k);
}

} // verus!
