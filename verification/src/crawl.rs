//! The directory crawl as an explicit work stack. Directory listings are
//! read outside and handed in one at a time; each step pushes the listed
//! subdirectories onto the stack and classifies the listed files against
//! the scan root. A listing that could not be read aborts the whole crawl
//! with that error: no partial result survives it.

use vstd::prelude::*;
use vstd::string::*;
use crate::classify::{classify, parse_path, string_views};
use crate::song::{PartialSong, PartialSongView};

verus! {

/// One entry of a directory listing, as read from outside.
pub struct FsEntry {
    /// The entry's full path, scan root included.
    pub path: String,
    pub is_dir: bool,
}

/// Mathematical image of a listing entry.
pub ghost struct FsEntryView {
    pub path: Seq<char>,
    pub is_dir: bool,
}

impl View for FsEntry {
    type V = FsEntryView;

    open spec fn view(&self) -> FsEntryView {
        FsEntryView { path: self.path@, is_dir: self.is_dir }
    }
}

/// The crawl in flight: directories still to list, descriptors found so far.
pub struct CrawlState {
    pub pending: Vec<String>,
    pub found: Vec<PartialSong>,
}

/// The views of a list of listing entries.
pub open spec fn entry_views(v: Seq<FsEntry>) -> Seq<FsEntryView> {
    v.map_values(|e: FsEntry| e@)
}

/// The views of the descriptors found.
pub open spec fn song_views(v: Seq<PartialSong>) -> Seq<PartialSongView> {
    v.map_values(|p: PartialSong| p@)
}

/// A full path sits under the scan root: root, one separator, then a
/// non-empty remainder.
pub open spec fn under_base(base: Seq<char>, p: Seq<char>) -> bool {
    &&& p.len() > base.len() + 1
    &&& p.subrange(0, base.len() as int) == base
    &&& p[base.len() as int] == '/'
}

/// The scan-root-relative part of a full path.
pub open spec fn rel_of(base: Seq<char>, p: Seq<char>) -> Seq<char> {
    p.subrange(base.len() as int + 1, p.len() as int)
}

/// What one listing entry contributes to the descriptors: nothing for a
/// directory, the classification outcome for a file.
pub open spec fn file_contrib(
    allowed: Seq<Seq<char>>,
    base: Seq<char>,
    e: FsEntryView,
) -> Seq<PartialSongView> {
    if e.is_dir {
        Seq::empty()
    } else {
        match classify(allowed, rel_of(base, e.path)) {
            Some(p) => seq![p],
            None => Seq::empty(),
        }
    }
}

/// What one listing entry contributes to the work stack.
pub open spec fn dir_contrib(e: FsEntryView) -> Seq<Seq<char>> {
    if e.is_dir {
        seq![e.path]
    } else {
        Seq::empty()
    }
}

/// The descriptors a whole listing contributes, in listing order.
pub open spec fn classified_files(
    allowed: Seq<Seq<char>>,
    base: Seq<char>,
    listing: Seq<FsEntryView>,
) -> Seq<PartialSongView>
    decreases listing.len(),
{
    if listing.len() == 0 {
        Seq::empty()
    } else {
        classified_files(allowed, base, listing.drop_last()) + file_contrib(allowed, base, listing.last())
    }
}

/// The subdirectories a whole listing contributes, in listing order.
pub open spec fn sub_dirs(listing: Seq<FsEntryView>) -> Seq<Seq<char>>
    decreases listing.len(),
{
    if listing.len() == 0 {
        Seq::empty()
    } else {
        sub_dirs(listing.drop_last()) + dir_contrib(listing.last())
    }
}

impl CrawlState {
    /// A crawl about to start at one root directory.
    pub fn new(root: String) -> (s: CrawlState)
        ensures
            string_views(s.pending@) == seq![root@],
            s.found@ == Seq::<PartialSong>::empty(),
    {
        let mut pending: Vec<String> = Vec::new();
        pending.push(root);
        proof {
            assert(string_views(pending@) =~= seq![root@]);
        }
        CrawlState { pending, found: Vec::new() }
    }

    /// Take the next directory to list, if any is left.
    pub fn next_dir(&mut self) -> (d: Option<String>)
        ensures
            old(self).pending@.len() == 0 ==> d is None && final(self).pending@ == old(self).pending@
                && final(self).found@ == old(self).found@,
            old(self).pending@.len() > 0 ==> (d matches Some(p)
                && p == old(self).pending@.last()
                && final(self).pending@ == old(self).pending@.drop_last()
                && final(self).found@ == old(self).found@),
    {
        self.pending.pop()
    }

    /// The descriptors of a finished crawl.
    pub fn into_songs(self) -> (r: Vec<PartialSong>)
        ensures
            r == self.found,
    {
        self.found
    }
}

/// Fold one directory listing into the crawl: subdirectories join the work
/// stack, files are classified against the scan root, and a failed read
/// aborts the whole crawl, its error propagated unmodified and no partial
/// result kept.
#[verifier::loop_isolation(false)]
pub fn crawl_step<E>(
    allowed_extensions: &Vec<String>,
    base_path: &str,
    state: CrawlState,
    listing: Result<Vec<FsEntry>, E>,
) -> (r: Result<CrawlState, E>)
    requires
        listing matches Ok(l) ==> forall|k: int|
            0 <= k < l@.len() && !l@[k].is_dir ==> under_base(base_path@, #[trigger] l@[k]@.path),
    ensures
        listing matches Err(e) ==> r == Err::<CrawlState, E>(e),
        listing matches Ok(l) ==> (r matches Ok(s2)
            && song_views(s2.found@) == song_views(state.found@)
                + classified_files(string_views(allowed_extensions@), base_path@, entry_views(l@))
            && string_views(s2.pending@) == string_views(state.pending@)
                + sub_dirs(entry_views(l@))),
{
    let l = match listing {
        Ok(l) => l,
        Err(e) => {
            return Err(e);
        },
    };
    let ghost lv = entry_views(l@);
    let ghost av = string_views(allowed_extensions@);
    let base_len = base_path.unicode_len();
    let mut st = state;
    let n = l.len();
    let mut i: usize = 0;
    proof {
        assert(lv.take(0) =~= Seq::<FsEntryView>::empty());
        assert(song_views(st.found@) + classified_files(av, base_path@, lv.take(0))
            =~= song_views(state.found@));
        assert(string_views(st.pending@) + sub_dirs(lv.take(0)) =~= string_views(state.pending@));
    }
    while i < n
        invariant
            i <= n,
            song_views(st.found@) == song_views(state.found@)
                + classified_files(av, base_path@, lv.take(i as int)),
            string_views(st.pending@) == string_views(state.pending@) + sub_dirs(lv.take(i as int)),
        decreases n - i,
    {
        let e = &l[i];
        proof {
            assert(lv[i as int] == l@[i as int]@);
        }
        if e.is_dir {
            st.pending.push(e.path.clone());
            proof {
                assert(string_views(st.pending@)
                    =~= string_views(state.pending@) + sub_dirs(lv.take(i as int))
                        + seq![e.path@]);
            }
        } else {
            proof {
                assert(under_base(base_path@, l@[i as int]@.path));
            }
            let plen = e.path.unicode_len();
            let rel = e.path.as_str().substring_char(base_len + 1, plen);
            proof {
                assert(rel@ == rel_of(base_path@, lv[i as int].path));
            }
            match parse_path(allowed_extensions, rel) {
                Some(ps) => {
                    st.found.push(ps);
                    proof {
                        assert(song_views(st.found@)
                            =~= song_views(state.found@)
                                + classified_files(av, base_path@, lv.take(i as int))
                                + file_contrib(av, base_path@, lv[i as int]));
                    }
                },
                None => {},
            }
        }
        proof {
            assert(lv.take(i as int + 1).drop_last() =~= lv.take(i as int));
            assert(lv.take(i as int + 1).last() == lv[i as int]);
            assert(classified_files(av, base_path@, lv.take(i as int + 1))
                =~= classified_files(av, base_path@, lv.take(i as int))
                    + file_contrib(av, base_path@, lv[i as int]));
            assert(sub_dirs(lv.take(i as int + 1))
                =~= sub_dirs(lv.take(i as int)) + dir_contrib(lv[i as int]));
            assert(song_views(st.found@) =~= song_views(state.found@)
                + classified_files(av, base_path@, lv.take(i as int + 1)));
            assert(string_views(st.pending@) =~= string_views(state.pending@)
                + sub_dirs(lv.take(i as int + 1)));
        }
        i = i + 1;
    }
    proof {
        assert(lv.take(n as int) =~= lv);
    }
    Ok(st)
}

} // verus!
