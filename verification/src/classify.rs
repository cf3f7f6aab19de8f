//! Path classification: decides whether a scan-root-relative path denotes a
//! track, and derives its identity fields (filename, extension, artist,
//! album) from the path's structure.
//!
//! Paths are plain forward-slash-separated strings. A path has an extension
//! when its final segment holds a dot past its first character; the
//! extension is everything after the last dot. Artist and album are the
//! first two segments exactly when the path has exactly three, and the
//! literal `"Unknown"` otherwise. The stored filename is the final segment
//! with every occurrence of `.<extension>` removed — a textual replace, not
//! a suffix trim, kept deliberately.

use vstd::prelude::*;
use vstd::string::*;
use crate::song::{PartialSong, PartialSongView};
use crate::strutil::{
    find_from, rfind_before, strip_occurrences, find_char_from, rfind_char, str_eq, remove_all,
};

verus! {

/// Index of the first character of the path's final segment.
pub open spec fn name_start(s: Seq<char>) -> int {
    match rfind_before(s, s.len() as int, '/') {
        Some(i) => i + 1,
        None => 0,
    }
}

/// The path's final segment.
pub open spec fn file_name_of(s: Seq<char>) -> Seq<char> {
    s.subrange(name_start(s), s.len() as int)
}

/// The extension: what follows the last dot, provided that dot lies inside
/// the final segment and is not its first character.
pub open spec fn extension_of(s: Seq<char>) -> Option<Seq<char>> {
    match rfind_before(s, s.len() as int, '.') {
        Some(d) => if d > name_start(s) {
            Some(s.subrange(d + 1, s.len() as int))
        } else {
            None
        },
        None => None,
    }
}

/// Position of the first separator, if any.
pub open spec fn first_slash(s: Seq<char>) -> Option<int> {
    find_from(s, 0, '/')
}

/// Position of the second separator, if any.
pub open spec fn second_slash(s: Seq<char>) -> Option<int> {
    match first_slash(s) {
        Some(i1) => find_from(s, i1 + 1, '/'),
        None => None,
    }
}

/// A path splits into exactly three segments when it holds exactly two
/// separators.
pub open spec fn three_segments(s: Seq<char>) -> bool {
    match second_slash(s) {
        Some(i2) => find_from(s, i2 + 1, '/') is None,
        None => false,
    }
}

/// The artist field: the first segment under the strict three-segment rule,
/// the literal fallback otherwise.
pub open spec fn artist_of(s: Seq<char>) -> Seq<char> {
    if three_segments(s) {
        s.subrange(0, first_slash(s)->Some_0)
    } else {
        "Unknown"@
    }
}

/// The album field: the second segment under the strict three-segment rule,
/// the literal fallback otherwise.
pub open spec fn album_of(s: Seq<char>) -> Seq<char> {
    if three_segments(s) {
        s.subrange(first_slash(s)->Some_0 + 1, second_slash(s)->Some_0)
    } else {
        "Unknown"@
    }
}

/// The views of a list of extension strings.
pub open spec fn string_views(v: Seq<String>) -> Seq<Seq<char>> {
    v.map_values(|e: String| e@)
}

/// Whether the allowed set holds the extension, by exact character match.
pub open spec fn allowed_contains(allowed: Seq<Seq<char>>, ext: Seq<char>) -> bool {
    exists|j: int| 0 <= j < allowed.len() && allowed[j] == ext
}

/// The descriptor a path classifies to: present exactly when the path has
/// an extension in the allowed set.
pub open spec fn classify(allowed: Seq<Seq<char>>, path: Seq<char>) -> Option<PartialSongView> {
    match extension_of(path) {
        Some(ext) => if allowed_contains(allowed, ext) {
            Some(PartialSongView {
                filename: strip_occurrences(file_name_of(path), seq!['.'] + ext),
                filepath: path,
                extension: ext,
                artist: artist_of(path),
                album: album_of(path),
                full_path: path,
            })
        } else {
            None
        },
        None => None,
    }
}

/// Whenever classification yields a descriptor, its artist and album are
/// the first two path segments when the path has exactly three, and the
/// literal `"Unknown"` for every other segment count — two levels deep and
/// four levels deep alike.
pub proof fn lemma_descriptor_artist_album(allowed: Seq<Seq<char>>, path: Seq<char>)
    requires
        classify(allowed, path) is Some,
    ensures
        three_segments(path) ==> classify(allowed, path)->Some_0.artist
            == path.subrange(0, first_slash(path)->Some_0)
            && classify(allowed, path)->Some_0.album
            == path.subrange(first_slash(path)->Some_0 + 1, second_slash(path)->Some_0),
        !three_segments(path) ==> classify(allowed, path)->Some_0.artist == "Unknown"@
            && classify(allowed, path)->Some_0.album == "Unknown"@,
{
}

/// A path whose extension is missing or outside the allowed set yields no
/// descriptor.
pub proof fn lemma_disallowed_extension_no_descriptor(allowed: Seq<Seq<char>>, path: Seq<char>)
    requires
        match extension_of(path) {
            Some(e) => !allowed_contains(allowed, e),
            None => true,
        },
    ensures
        classify(allowed, path) is None,
{
}

/// Classify one scan-root-relative path against the allowed extensions.
pub fn parse_path(allowed_extensions: &Vec<String>, rel_path: &str) -> (r: Option<PartialSong>)
    ensures
        (match r {
            Some(ps) => classify(string_views(allowed_extensions@), rel_path@) == Some(ps@),
            None => classify(string_views(allowed_extensions@), rel_path@) is None,
        }),
{
    let n = rel_path.unicode_len();

    let slash = rfind_char(rel_path, '/');
    let ns: usize = match slash {
        Some(i) => i + 1,
        None => 0,
    };
    proof {
        assert(ns == name_start(rel_path@));
    }

    let d: usize;
    match rfind_char(rel_path, '.') {
        Some(dd) => {
            if dd > ns {
                d = dd;
            } else {
                return None;
            }
        },
        None => {
            return None;
        },
    }

    let ext_str = rel_path.substring_char(d + 1, n);
    proof {
        assert(extension_of(rel_path@) == Some(ext_str@));
    }

    let mut j: usize = 0;
    let mut hit = false;
    while j < allowed_extensions.len() && !hit
        invariant
            j <= allowed_extensions.len(),
            !hit ==> forall|k: int| 0 <= k < j ==> allowed_extensions@[k]@ != ext_str@,
            hit ==> allowed_contains(string_views(allowed_extensions@), ext_str@),
        decreases allowed_extensions.len() - j,
    {
        if str_eq(allowed_extensions[j].as_str(), ext_str) {
            hit = true;
            proof {
                assert(string_views(allowed_extensions@)[j as int] == ext_str@);
            }
        }
        j = j + 1;
    }
    if !hit {
        proof {
            assert(forall|k: int| 0 <= k < allowed_extensions@.len()
                ==> string_views(allowed_extensions@)[k] == allowed_extensions@[k]@);
            assert(!allowed_contains(string_views(allowed_extensions@), ext_str@));
        }
        return None;
    }

    let s1 = find_char_from(rel_path, 0, '/');
    let mut artist: String = String::from_str("Unknown");
    let mut album: String = String::from_str("Unknown");
    match s1 {
        Some(i1) => {
            match find_char_from(rel_path, i1 + 1, '/') {
                Some(i2) => {
                    match find_char_from(rel_path, i2 + 1, '/') {
                        Some(_) => {},
                        None => {
                            artist = rel_path.substring_char(0, i1).to_owned();
                            album = rel_path.substring_char(i1 + 1, i2).to_owned();
                            proof {
                                assert(three_segments(rel_path@));
                            }
                        },
                    }
                },
                None => {},
            }
        },
        None => {},
    }
    proof {
        assert(artist@ == artist_of(rel_path@));
        assert(album@ == album_of(rel_path@));
    }

    let file_name_str = rel_path.substring_char(ns, n);
    let mut pat = String::from_str(".");
    pat.append(ext_str);
    proof {
        reveal_strlit(".");
        assert(pat@ =~= seq!['.'] + ext_str@);
    }
    let filename = remove_all(file_name_str, pat.as_str());

    let ps = PartialSong {
        filename,
        filepath: rel_path.to_owned(),
        extension: ext_str.to_owned(),
        artist,
        album,
        full_path: rel_path.to_owned(),
    };
    Some(ps)
}

} // verus!
