//! Catalog reconciliation: resolving or creating an entry for each
//! descriptor of a fresh scan, and attaching a metadata record to every
//! entry that lacks one, at most once over the catalog's lifetime.
//!
//! The catalog here is the in-memory model of the persistent store: a
//! sequence of entries keyed by the identity triple (relative path, file
//! name, extension) plus a surrogate id counter, and a sequence of metadata
//! records keyed by entry id. Reconciliation against it is verified; an
//! outside relational store reached by the same point lookups and inserts
//! behaves identically step for step.

use vstd::prelude::*;
use crate::metadata::{TagData, TrackMetadata, spec_record, metadata_from_tags};
use crate::song::Song;
use crate::strutil::str_eq;

verus! {

/// One persistent catalog entry: an on-disk audio file ever observed.
pub struct CatalogEntry {
    pub id: i64,
    pub relative_path: String,
    pub file_name: String,
    pub file_extension: String,
    pub is_present: bool,
    pub first_path_segment: String,
    pub second_path_segment: String,
    pub created_at: i64,
    pub updated_at: Option<i64>,
}

/// The catalog: entries, their metadata records, and the next surrogate id.
pub struct Catalog {
    pub entries: Vec<CatalogEntry>,
    pub metadata: Vec<TrackMetadata>,
    pub next_id: i64,
}

/// Mathematical image of a catalog.
pub ghost struct CatalogModel {
    pub entries: Seq<CatalogEntry>,
    pub metadata: Seq<TrackMetadata>,
    pub next_id: i64,
}

impl View for Catalog {
    type V = CatalogModel;

    open spec fn view(&self) -> CatalogModel {
        CatalogModel { entries: self.entries@, metadata: self.metadata@, next_id: self.next_id }
    }
}

/// Whether an entry carries the descriptor's identity triple.
pub open spec fn triple_matches(e: CatalogEntry, song: Song) -> bool {
    &&& e.relative_path@ == song.file_path@
    &&& e.file_name@ == song.file_name@
    &&& e.file_extension@ == song.file_extension@
}

/// Index of the first entry at or after `from` matching the triple.
pub open spec fn entry_index_from(entries: Seq<CatalogEntry>, song: Song, from: int) -> Option<int>
    decreases entries.len() - from,
{
    if from < 0 || from >= entries.len() {
        None
    } else if triple_matches(entries[from], song) {
        Some(from)
    } else {
        entry_index_from(entries, song, from + 1)
    }
}

/// Index of the first entry matching the descriptor's identity triple.
pub open spec fn entry_index(entries: Seq<CatalogEntry>, song: Song) -> Option<int> {
    entry_index_from(entries, song, 0)
}

/// Whether a metadata record for entry `id` exists.
pub open spec fn has_meta(m: Seq<TrackMetadata>, id: i64) -> bool {
    exists|i: int| 0 <= i < m.len() && #[trigger] m[i].file_artifact_id == id
}

/// The entry created for a descriptor first observed at time `now`: present,
/// with the path-derived segments fixed at creation and no update time.
pub open spec fn spec_new_entry(song: Song, id: i64, now: i64) -> CatalogEntry {
    CatalogEntry {
        id,
        relative_path: song.file_path,
        file_name: song.file_name,
        file_extension: song.file_extension,
        is_present: true,
        first_path_segment: song.artist,
        second_path_segment: song.album,
        created_at: now,
        updated_at: None,
    }
}

/// The id a descriptor resolves to: the matching entry's, or the id the
/// created entry receives.
pub open spec fn resolved_id(c: CatalogModel, song: Song) -> i64 {
    match entry_index(c.entries, song) {
        Some(k) => c.entries[k].id,
        None => c.next_id,
    }
}

/// The catalog after the lookup / create-if-absent step for one descriptor.
pub open spec fn after_entry(c: CatalogModel, song: Song, now: i64) -> CatalogModel {
    match entry_index(c.entries, song) {
        Some(k) => c,
        None => CatalogModel {
            entries: c.entries.push(spec_new_entry(song, c.next_id, now)),
            metadata: c.metadata,
            next_id: (c.next_id + 1) as i64,
        },
    }
}

/// The catalog after one descriptor is fully reconciled: entry resolved or
/// created, then a metadata record added exactly when none exists for the
/// resolved id.
pub open spec fn reconcile_one(
    c: CatalogModel,
    song: Song,
    tag: Option<TagData>,
    now: i64,
) -> CatalogModel {
    let id = resolved_id(c, song);
    let c1 = after_entry(c, song, now);
    if has_meta(c1.metadata, id) {
        c1
    } else {
        CatalogModel { metadata: c1.metadata.push(spec_record(id, tag)), ..c1 }
    }
}

/// The catalog after a whole descriptor list is reconciled in order.
pub open spec fn reconcile_all(
    c: CatalogModel,
    songs: Seq<Song>,
    tags: Seq<Option<TagData>>,
    now: i64,
) -> CatalogModel
    decreases songs.len(),
{
    if songs.len() == 0 {
        c
    } else {
        reconcile_one(
            reconcile_all(c, songs.drop_last(), tags.drop_last(), now),
            songs.last(),
            tags.last(),
            now,
        )
    }
}

/// Whether some entry of the catalog carries the id.
pub open spec fn id_known(c: CatalogModel, id: i64) -> bool {
    exists|j: int| 0 <= j < c.entries.len() && #[trigger] c.entries[j].id == id
}

/// Catalog well-formedness: surrogate ids unique and below the counter,
/// at most one metadata record per id, and every record attached to an
/// existing entry.
pub open spec fn wf_model(c: CatalogModel) -> bool {
    &&& forall|i: int, j: int|
        0 <= i < j < c.entries.len() ==> #[trigger] c.entries[i].id != #[trigger] c.entries[j].id
    &&& forall|i: int| 0 <= i < c.entries.len() ==> #[trigger] c.entries[i].id < c.next_id
    &&& forall|i: int, j: int|
        0 <= i < j < c.metadata.len()
            ==> #[trigger] c.metadata[i].file_artifact_id != #[trigger] c.metadata[j].file_artifact_id
    &&& forall|i: int|
        0 <= i < c.metadata.len() ==> #[trigger] id_known(c, c.metadata[i].file_artifact_id)
}

impl Catalog {
    /// Whether this catalog is well formed.
    pub open spec fn wf(&self) -> bool {
        wf_model(self@)
    }

    /// An empty catalog; surrogate ids start at one.
    pub fn new() -> (c: Catalog)
        ensures
            c.wf(),
            c@.entries == Seq::<CatalogEntry>::empty(),
            c@.metadata == Seq::<TrackMetadata>::empty(),
            c@.next_id == 1,
    {
        Catalog { entries: Vec::new(), metadata: Vec::new(), next_id: 1 }
    }

    /// Resolve a descriptor to its entry id: the existing entry's when the
    /// identity triple is already catalogued — in which case nothing
    /// changes — and a freshly created entry's otherwise.
    #[verifier::loop_isolation(false)]
    pub fn find_or_create_song(&mut self, song: &Song, now: i64) -> (id: i64)
        requires
            old(self).wf(),
            old(self)@.next_id < i64::MAX,
        ensures
            final(self).wf(),
            final(self)@ == after_entry(old(self)@, *song, now),
            id == resolved_id(old(self)@, *song),
            entry_index(old(self)@.entries, *song) is Some ==> final(self)@ == old(self)@,
            exists|j: int|
                0 <= j < final(self)@.entries.len() && #[trigger] final(self)@.entries[j].id == id
                    && triple_matches(final(self)@.entries[j], *song),
    {
        proof {
            lemma_entry_index_props(old(self)@.entries, *song, 0);
        }
        let n = self.entries.len();
        let mut i: usize = 0;
        while i < n
            invariant
                i <= n,
                n == self.entries@.len(),
                entry_index(self.entries@, *song) == entry_index_from(self.entries@, *song, i as int),
                forall|k: int| 0 <= k < i ==> !triple_matches(#[trigger] self.entries@[k], *song),
            decreases n - i,
        {
            let e = &self.entries[i];
            if str_eq(e.relative_path.as_str(), song.file_path.as_str())
                && str_eq(e.file_name.as_str(), song.file_name.as_str())
                && str_eq(e.file_extension.as_str(), song.file_extension.as_str()) {
                proof {
                    assert(triple_matches(self.entries@[i as int], *song));
                    assert(entry_index(self.entries@, *song) == Some(i as int));
                    assert(self@.entries[i as int].id == self.entries@[i as int].id);
                }
                return e.id;
            }
            i = i + 1;
        }
        proof {
            assert(entry_index(self.entries@, *song) is None);
        }
        let id = self.next_id;
        let entry = CatalogEntry {
            id,
            relative_path: song.file_path.clone(),
            file_name: song.file_name.clone(),
            file_extension: song.file_extension.clone(),
            is_present: true,
            first_path_segment: song.artist.clone(),
            second_path_segment: song.album.clone(),
            created_at: now,
            updated_at: None,
        };
        proof {
            assert(entry == spec_new_entry(*song, old(self)@.next_id, now));
        }
        self.entries.push(entry);
        self.next_id = self.next_id + 1;
        proof {
            let ghost pre = old(self)@;
            let ghost m = self@;
            assert(m.entries =~= pre.entries.push(spec_new_entry(*song, pre.next_id, now)));
            assert(m == after_entry(pre, *song, now));
            let ghost last = m.entries.len() - 1;
            assert(m.entries[last] == entry);
            assert(triple_matches(m.entries[last], *song));
            assert(m.entries[last].id == id);
            assert forall|p: int, q: int| 0 <= p < q < m.entries.len()
                implies #[trigger] m.entries[p].id != #[trigger] m.entries[q].id by {
                assert(m.entries[p] == pre.entries[p]);
                assert(pre.entries[p].id < pre.next_id);
                if q < last {
                    assert(m.entries[q] == pre.entries[q]);
                }
            }
            assert forall|p: int| 0 <= p < m.metadata.len()
                implies #[trigger] id_known(m, m.metadata[p].file_artifact_id) by {
                assert(m.metadata[p] == pre.metadata[p]);
                assert(id_known(pre, pre.metadata[p].file_artifact_id));
                let w = choose|j: int|
                    0 <= j < pre.entries.len()
                        && #[trigger] pre.entries[j].id == pre.metadata[p].file_artifact_id;
                assert(m.entries[w].id == m.metadata[p].file_artifact_id);
                assert(id_known(m, m.metadata[p].file_artifact_id));
            }
        }
        id
    }

    /// Whether a metadata record for entry `id` already exists;
    /// reconciliation consults this so that metadata creation stays
    /// monotonic.
    pub fn has_metadata(&self, id: i64) -> (b: bool)
        ensures
            b == has_meta(self@.metadata, id),
    {
        let n = self.metadata.len();
        let mut i: usize = 0;
        while i < n
            invariant
                i <= n,
                n == self.metadata@.len(),
                forall|k: int| 0 <= k < i ==> #[trigger] self.metadata@[k].file_artifact_id != id,
            decreases n - i,
        {
            if self.metadata[i].file_artifact_id == id {
                return true;
            }
            i = i + 1;
        }
        false
    }

    /// Persist exactly one metadata record for entry `id`, built from the
    /// extraction outcome: the tag fields on success, all null on failure.
    pub fn save_metadata(&mut self, id: i64, tags: Option<TagData>)
        requires
            old(self).wf(),
            !has_meta(old(self)@.metadata, id),
            exists|j: int| 0 <= j < old(self)@.entries.len() && #[trigger] old(self)@.entries[j].id == id,
        ensures
            final(self).wf(),
            final(self)@.metadata == old(self)@.metadata.push(spec_record(id, tags)),
            final(self)@.entries == old(self)@.entries,
            final(self)@.next_id == old(self)@.next_id,
    {
        let m = metadata_from_tags(id, tags);
        self.metadata.push(m);
        proof {
            assert(self@.metadata =~= old(self)@.metadata.push(spec_record(id, tags)));
            let ghost pre = old(self)@;
            let ghost now_model = self@;
            assert forall|p: int| 0 <= p < now_model.metadata.len()
                implies #[trigger] id_known(now_model, now_model.metadata[p].file_artifact_id) by {
                if p < pre.metadata.len() {
                    assert(now_model.metadata[p] == pre.metadata[p]);
                    assert(id_known(pre, pre.metadata[p].file_artifact_id));
                    let w = choose|j: int|
                        0 <= j < pre.entries.len()
                            && #[trigger] pre.entries[j].id == pre.metadata[p].file_artifact_id;
                    assert(now_model.entries[w].id == now_model.metadata[p].file_artifact_id);
                } else {
                    let w = choose|j: int|
                        0 <= j < pre.entries.len() && #[trigger] pre.entries[j].id == id;
                    assert(now_model.entries[w].id == id);
                    assert(now_model.metadata[p].file_artifact_id == id);
                }
                assert(id_known(now_model, now_model.metadata[p].file_artifact_id));
            }
            assert forall|p: int, q: int| 0 <= p < q < now_model.metadata.len()
                implies #[trigger] now_model.metadata[p].file_artifact_id
                    != #[trigger] now_model.metadata[q].file_artifact_id by {
                if q == now_model.metadata.len() - 1 {
                    assert(now_model.metadata[p] == pre.metadata[p]);
                }
            }
        }
    }

    /// Reconcile a whole sorted descriptor list against the catalog, using
    /// `tags` as the per-descriptor extraction outcomes; the outcome of a
    /// descriptor whose entry already has a record is not consulted.
    pub fn startup_scan(&mut self, songs: &Vec<Song>, tags: Vec<Option<TagData>>, now: i64)
        requires
            old(self).wf(),
            tags@.len() == songs@.len(),
            old(self)@.next_id + songs@.len() <= i64::MAX,
        ensures
            final(self).wf(),
            final(self)@ == reconcile_all(old(self)@, songs@, tags@, now),
    {
        let ghost tags0 = tags@;
        let mut tags = tags;
        let n = songs.len();
        let mut i: usize = 0;
        proof {
            assert(songs@.take(0) =~= Seq::<Song>::empty());
            assert(tags0.take(0) =~= Seq::<Option<TagData>>::empty());
        }
        while i < n
            invariant
                i <= n,
                n == songs@.len(),
                tags0.len() == n,
                tags@ == tags0.skip(i as int),
                self.wf(),
                self@ == reconcile_all(old(self)@, songs@.take(i as int), tags0.take(i as int), now),
                self@.next_id <= old(self)@.next_id + i,
                old(self)@.next_id + n <= i64::MAX,
            decreases n - i,
        {
            let ghost pre = self@;
            let song = &songs[i];
            let id = self.find_or_create_song(song, now);
            let t = tags.remove(0);
            proof {
                assert(t == tags0[i as int]);
                assert(tags@ =~= tags0.skip(i as int + 1));
            }
            if !self.has_metadata(id) {
                self.save_metadata(id, t);
            }
            proof {
                assert(self@ == reconcile_one(pre, songs@[i as int], tags0[i as int], now));
                assert(songs@.take(i as int + 1).drop_last() =~= songs@.take(i as int));
                assert(tags0.take(i as int + 1).drop_last() =~= tags0.take(i as int));
                assert(songs@.take(i as int + 1).last() == songs@[i as int]);
                assert(tags0.take(i as int + 1).last() == tags0[i as int]);
            }
            i = i + 1;
        }
        proof {
            assert(songs@.take(n as int) =~= songs@);
            assert(tags0.take(n as int) =~= tags0);
        }
    }
}

/// Whether some descriptor of the list carries the entry's identity triple.
pub open spec fn in_descriptor_set(songs: Seq<Song>, e: CatalogEntry) -> bool {
    exists|i: int| 0 <= i < songs.len() && triple_matches(e, #[trigger] songs[i])
}

/// An entry flagged as gone from disk: not present, timestamp updated,
/// everything else kept.
pub open spec fn marked_absent(e: CatalogEntry, now: i64) -> CatalogEntry {
    CatalogEntry { is_present: false, updated_at: Some(now), ..e }
}

impl Catalog {
    /// The symmetric half of reconciliation: every entry whose identity
    /// triple is absent from the current descriptor list is marked
    /// not-present with an updated timestamp; entries the list still holds
    /// are untouched, and no entry is ever deleted. An entry that
    /// reappears on a later scan resolves by lookup, which checks
    /// existence only, not the flag.
    #[verifier::loop_isolation(false)]
    #[verifier::rlimit(30)]
    pub fn mark_absent_entries(&mut self, songs: &Vec<Song>, now: i64)
        requires
            old(self).wf(),
        ensures
            final(self).wf(),
            final(self)@.entries.len() == old(self)@.entries.len(),
            forall|k: int|
                0 <= k < old(self)@.entries.len() ==> final(self)@.entries[k]
                    == (if in_descriptor_set(songs@, old(self)@.entries[k]) {
                        old(self)@.entries[k]
                    } else {
                        marked_absent(old(self)@.entries[k], now)
                    }),
            final(self)@.metadata == old(self)@.metadata,
            final(self)@.next_id == old(self)@.next_id,
    {
        let n = self.entries.len();
        let mut k: usize = 0;
        while k < n
            invariant
                k <= n,
                n == self.entries@.len(),
                n == old(self)@.entries.len(),
                forall|p: int|
                    0 <= p < k ==> self.entries@[p]
                        == (if in_descriptor_set(songs@, old(self)@.entries[p]) {
                            old(self)@.entries[p]
                        } else {
                            marked_absent(old(self)@.entries[p], now)
                        }),
                forall|p: int| k <= p < n ==> self.entries@[p] == old(self)@.entries[p],
                self.metadata@ == old(self)@.metadata,
                self.next_id == old(self)@.next_id,
            decreases n - k,
        {
            let m = songs.len();
            let mut j: usize = 0;
            let mut found = false;
            while j < m
                invariant
                    j <= m,
                    m == songs@.len(),
                    k < n,
                    self.entries@[k as int] == old(self)@.entries[k as int],
                    !found ==> forall|q: int|
                        0 <= q < j ==> !triple_matches(self.entries@[k as int], #[trigger] songs@[q]),
                    found ==> in_descriptor_set(songs@, old(self)@.entries[k as int]),
                decreases m - j,
            {
                let e = &self.entries[k];
                let s = &songs[j];
                if str_eq(e.relative_path.as_str(), s.file_path.as_str())
                    && str_eq(e.file_name.as_str(), s.file_name.as_str())
                    && str_eq(e.file_extension.as_str(), s.file_extension.as_str()) {
                    found = true;
                }
                j = j + 1;
            }
            if !found {
                proof {
                    assert(!in_descriptor_set(songs@, old(self)@.entries[k as int]));
                }
                let updated = {
                    let e = &self.entries[k];
                    CatalogEntry {
                        id: e.id,
                        relative_path: e.relative_path.clone(),
                        file_name: e.file_name.clone(),
                        file_extension: e.file_extension.clone(),
                        is_present: false,
                        first_path_segment: e.first_path_segment.clone(),
                        second_path_segment: e.second_path_segment.clone(),
                        created_at: e.created_at,
                        updated_at: Some(now),
                    }
                };
                proof {
                    assert(updated == marked_absent(old(self)@.entries[k as int], now));
                }
                self.entries.set(k, updated);
            }
            k = k + 1;
        }
        proof {
            let ghost pre = old(self)@;
            let ghost m = self@;
            assert forall|p: int| 0 <= p < m.entries.len()
                implies #[trigger] m.entries[p].id == pre.entries[p].id by {
            }
            assert forall|p: int, q: int| 0 <= p < q < m.entries.len()
                implies #[trigger] m.entries[p].id != #[trigger] m.entries[q].id by {
                assert(pre.entries[p].id != pre.entries[q].id);
            }
            assert forall|p: int| 0 <= p < m.entries.len()
                implies #[trigger] m.entries[p].id < m.next_id by {
                assert(pre.entries[p].id < pre.next_id);
            }
            assert forall|p: int| 0 <= p < m.metadata.len()
                implies #[trigger] id_known(m, m.metadata[p].file_artifact_id) by {
                assert(m.metadata[p] == pre.metadata[p]);
                assert(id_known(pre, pre.metadata[p].file_artifact_id));
                let w = choose|j: int|
                    0 <= j < pre.entries.len()
                        && #[trigger] pre.entries[j].id == pre.metadata[p].file_artifact_id;
                assert(m.entries[w].id == m.metadata[p].file_artifact_id);
                assert(id_known(m, m.metadata[p].file_artifact_id));
            }
            assert forall|p: int, q: int| 0 <= p < q < m.metadata.len()
                implies #[trigger] m.metadata[p].file_artifact_id
                    != #[trigger] m.metadata[q].file_artifact_id by {
                assert(m.metadata[p] == pre.metadata[p]);
                assert(m.metadata[q] == pre.metadata[q]);
            }
        }
    }
}

/// A descriptor is settled in a catalog when its triple has an entry and
/// that entry's id has a metadata record: nothing remains to create for it.
pub open spec fn song_settled(c: CatalogModel, song: Song) -> bool {
    &&& entry_index(c.entries, song) is Some
    &&& has_meta(c.metadata, resolved_id(c, song))
}

/// A first match lies in range and matches, and a miss means nothing at or
/// after `from` matches.
pub proof fn lemma_entry_index_props(entries: Seq<CatalogEntry>, song: Song, from: int)
    requires
        0 <= from,
    ensures
        entry_index_from(entries, song, from) matches Some(k)
            ==> from <= k < entries.len() && triple_matches(entries[k], song),
        entry_index_from(entries, song, from) is None
            ==> forall|k: int|
                from <= k < entries.len() ==> !triple_matches(#[trigger] entries[k], song),
    decreases entries.len() - from,
{
    if from < entries.len() {
        lemma_entry_index_props(entries, song, from + 1);
    }
}

/// Pushing an entry keeps an existing first match, turns a miss into a hit
/// exactly when the pushed entry matches, and otherwise keeps the miss.
pub proof fn lemma_entry_index_push(
    entries: Seq<CatalogEntry>,
    e: CatalogEntry,
    song: Song,
    from: int,
)
    requires
        0 <= from <= entries.len(),
    ensures
        entry_index_from(entries, song, from) matches Some(k)
            ==> entry_index_from(entries.push(e), song, from) == Some(k),
        entry_index_from(entries, song, from) is None && triple_matches(e, song)
            ==> entry_index_from(entries.push(e), song, from) == Some(entries.len() as int),
        entry_index_from(entries, song, from) is None && !triple_matches(e, song)
            ==> entry_index_from(entries.push(e), song, from) is None,
    decreases entries.len() - from,
{
    if from < entries.len() {
        assert(entries.push(e)[from] == entries[from]);
        lemma_entry_index_push(entries, e, song, from + 1);
    } else {
        assert(entries.push(e)[from] == e);
        assert(entry_index_from(entries.push(e), song, from + 1) is None);
    }
}

/// Reconciling one descriptor settles it.
pub proof fn lemma_reconcile_one_settles(c: CatalogModel, song: Song, t: Option<TagData>, now: i64)
    ensures
        song_settled(reconcile_one(c, song, t, now), song),
{
    let id = resolved_id(c, song);
    let c1 = after_entry(c, song, now);
    let c2 = reconcile_one(c, song, t, now);
    lemma_entry_index_props(c.entries, song, 0);
    match entry_index(c.entries, song) {
        Some(k) => {
            assert(c1 == c);
            assert(entry_index(c2.entries, song) == Some(k));
            assert(resolved_id(c2, song) == id);
            if has_meta(c1.metadata, id) {
            } else {
                assert(c2.metadata[c2.metadata.len() - 1].file_artifact_id == id);
            }
        },
        None => {
            let fresh = spec_new_entry(song, c.next_id, now);
            assert(triple_matches(fresh, song));
            lemma_entry_index_push(c.entries, fresh, song, 0);
            assert(entry_index(c1.entries, song) == Some(c.entries.len() as int));
            assert(c1.entries[c.entries.len() as int].id == id);
            assert(entry_index(c2.entries, song) == Some(c.entries.len() as int));
            assert(resolved_id(c2, song) == id);
            if has_meta(c1.metadata, id) {
            } else {
                assert(c2.metadata[c2.metadata.len() - 1].file_artifact_id == id);
            }
        },
    }
}

/// Settledness survives the reconciliation of any other descriptor.
pub proof fn lemma_settled_preserved(
    c: CatalogModel,
    other: Song,
    t: Option<TagData>,
    now: i64,
    song: Song,
)
    requires
        song_settled(c, song),
    ensures
        song_settled(reconcile_one(c, other, t, now), song),
{
    let c1 = after_entry(c, other, now);
    let c2 = reconcile_one(c, other, t, now);
    let k = entry_index(c.entries, song)->Some_0;
    lemma_entry_index_props(c.entries, song, 0);
    match entry_index(c.entries, other) {
        Some(_) => {
            assert(c1.entries == c.entries);
        },
        None => {
            lemma_entry_index_push(c.entries, spec_new_entry(other, c.next_id, now), song, 0);
            assert(entry_index(c1.entries, song) == Some(k));
            assert(c1.entries[k] == c.entries[k]);
        },
    }
    assert(resolved_id(c2, song) == resolved_id(c, song));
    let id = resolved_id(c, song);
    let w = choose|i: int| 0 <= i < c.metadata.len() && #[trigger] c.metadata[i].file_artifact_id == id;
    assert(c2.metadata[w].file_artifact_id == id);
}

/// After a full reconciliation pass, every descriptor of the list is
/// settled: its entry exists and carries a metadata record.
pub proof fn lemma_scan_settles(
    c: CatalogModel,
    songs: Seq<Song>,
    tags: Seq<Option<TagData>>,
    now: i64,
)
    ensures
        forall|i: int|
            0 <= i < songs.len()
                ==> song_settled(reconcile_all(c, songs, tags, now), #[trigger] songs[i]),
    decreases songs.len(),
{
    if songs.len() > 0 {
        let pre = reconcile_all(c, songs.drop_last(), tags.drop_last(), now);
        let fin = reconcile_all(c, songs, tags, now);
        lemma_scan_settles(c, songs.drop_last(), tags.drop_last(), now);
        lemma_reconcile_one_settles(pre, songs.last(), tags.last(), now);
        assert forall|i: int| 0 <= i < songs.len() implies song_settled(fin, #[trigger] songs[i]) by {
            if i < songs.len() - 1 {
                assert(songs.drop_last()[i] == songs[i]);
                assert(song_settled(pre, songs[i]));
                lemma_settled_preserved(pre, songs.last(), tags.last(), now, songs[i]);
            } else {
                assert(songs[i] == songs.last());
            }
        }
    }
}

/// Reconciling a settled descriptor changes nothing.
pub proof fn lemma_settled_identity(c: CatalogModel, song: Song, t: Option<TagData>, now: i64)
    requires
        song_settled(c, song),
    ensures
        reconcile_one(c, song, t, now) == c,
{
}

/// A pass over descriptors that are all settled changes nothing.
pub proof fn lemma_rescan_identity(
    c: CatalogModel,
    songs: Seq<Song>,
    tags: Seq<Option<TagData>>,
    now: i64,
)
    requires
        forall|i: int| 0 <= i < songs.len() ==> song_settled(c, #[trigger] songs[i]),
    ensures
        reconcile_all(c, songs, tags, now) == c,
    decreases songs.len(),
{
    if songs.len() > 0 {
        assert forall|i: int| 0 <= i < songs.drop_last().len()
            implies song_settled(c, #[trigger] songs.drop_last()[i]) by {
            assert(songs.drop_last()[i] == songs[i]);
        }
        lemma_rescan_identity(c, songs.drop_last(), tags.drop_last(), now);
        assert(song_settled(c, songs.last()));
        lemma_settled_identity(c, songs.last(), tags.last(), now);
    }
}

/// A descriptor whose tags could not be read still ends reconciliation
/// with exactly one metadata record for its entry, every content field
/// null: the one pushed, while no other record carries its id.
pub proof fn lemma_unreadable_tags_one_null_record(c: CatalogModel, song: Song, now: i64)
    requires
        !has_meta(c.metadata, resolved_id(c, song)),
    ensures
        ({
            let id = resolved_id(c, song);
            let c2 = reconcile_one(c, song, None, now);
            &&& c2.metadata.len() == c.metadata.len() + 1
            &&& c2.metadata.last() == spec_record(id, None)
            &&& c2.metadata.last().file_artifact_id == id
            &&& c2.metadata.last().title is None
            &&& c2.metadata.last().album is None
            &&& c2.metadata.last().artist is None
            &&& c2.metadata.last().year is None
            &&& c2.metadata.last().duration is None
            &&& c2.metadata.last().genre is None
            &&& c2.metadata.last().composer is None
            &&& c2.metadata.last().track_number is None
            &&& forall|k: int|
                0 <= k < c.metadata.len()
                    ==> #[trigger] c2.metadata[k].file_artifact_id != id
        }),
{
    let id = resolved_id(c, song);
    let c2 = reconcile_one(c, song, None, now);
    assert forall|k: int| 0 <= k < c.metadata.len()
        implies #[trigger] c2.metadata[k].file_artifact_id != id by {
        assert(c2.metadata[k] == c.metadata[k]);
    }
}

/// Re-running reconciliation on an unchanged descriptor list is a no-op:
/// the catalog after a second pass equals the catalog after the first —
/// zero new entries and zero new metadata records — whatever the second
/// pass would have extracted and whenever it runs.
pub proof fn lemma_reconcile_idempotent(
    c: CatalogModel,
    songs: Seq<Song>,
    tags1: Seq<Option<TagData>>,
    tags2: Seq<Option<TagData>>,
    now1: i64,
    now2: i64,
)
    ensures
        reconcile_all(reconcile_all(c, songs, tags1, now1), songs, tags2, now2)
            == reconcile_all(c, songs, tags1, now1),
{
    let c1 = reconcile_all(c, songs, tags1, now1);
    lemma_scan_settles(c, songs, tags1, now1);
    lemma_rescan_identity(c1, songs, tags2, now2);
}

} // verus!
