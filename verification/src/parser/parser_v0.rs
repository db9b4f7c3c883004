//! The first export-structure version: where its files live relative to the
//! export root, how media paths are sanitized, and how decoded JSON pieces
//! become records.

use vstd::prelude::*;
use crate::text::{first_index_of, lemma_first_index_of, join_path, spec_join_path};
use crate::time::DateTime;
use super::{BerealMomentRecord, BerealSongData, BerealBTSData, BerealRealmojiRecord};

verus! {

/// Parser for version 0 of the export structure.
pub struct ParserV0 {
    pub input_path: String,
}

impl ParserV0 {
    /// A path inside the export, relative to the export root.
    pub fn relative_path(&self, p: &str) -> (r: String)
        ensures
            r@ == spec_join_path(self.input_path@, p@),
    {
        join_path(self.input_path.as_str(), p)
    }

    pub fn new(input_path: String) -> (r: ParserV0)
        ensures
            r.input_path == input_path,
    {
        ParserV0 { input_path }
    }
}

/// An ASCII letter or digit, the only characters allowed in the user id
/// segment of an export media path.
pub open spec fn is_alnum(c: char) -> bool {
    ('a' as u32 <= c as u32 && c as u32 <= 'z' as u32) || ('A' as u32 <= c as u32 && c as u32
        <= 'Z' as u32) || ('0' as u32 <= c as u32 && c as u32 <= '9' as u32)
}

/// What sanitizing a media path yields. The export stores media under
/// `Photos/<user id>/...` (with an optional leading '/'); sanitizing strips
/// the user id segment and anchors the path at `./`. A path of any other
/// shape — or one whose tail holds a line break — is not recognised.
pub open spec fn spec_strip_bereal_id(path: Seq<char>) -> Option<Seq<char>> {
    let p0: int = if path.len() > 0 && path[0] == '/' {
        1int
    } else {
        0int
    };
    if path.len() >= p0 + 7 && path.subrange(p0, p0 + 7) == "Photos/"@ {
        let id_start = p0 + 7;
        let rel = first_index_of(path.skip(id_start), '/');
        if rel >= 1 && (forall|i: int| id_start <= i < id_start + rel ==> is_alnum(#[trigger] path[i]))
            && (forall|i: int| id_start + rel + 1 <= i < path.len() ==> #[trigger] path[i] != '\n') {
            Some("./"@ + path.take(id_start) + path.skip(id_start + rel + 1))
        } else {
            None
        }
    } else {
        None
    }
}

/// Strip the user id segment from an export media path.
#[verifier::loop_isolation(false)]
pub fn strip_bereal_id_from_path(path: &str) -> (r: Option<String>)
    ensures
        r is Some <==> spec_strip_bereal_id(path@) is Some,
        r is Some ==> r->Some_0@ == spec_strip_bereal_id(path@)->Some_0,
{
    let n = path.unicode_len();
    let p0: usize = if n > 0 && path.get_char(0) == '/' {
        1
    } else {
        0
    };
    if n < p0 + 7 {
        return None;
    }
    proof {
        reveal_strlit("Photos/");
        assert forall|k: int| 0 <= k < 7 implies #[trigger] path@.subrange(p0 as int, p0 + 7)[k]
            == path@[p0 + k] by {}
    }
    let prefix_ok = path.get_char(p0) == 'P' && path.get_char(p0 + 1) == 'h' && path.get_char(
        p0 + 2,
    ) == 'o' && path.get_char(p0 + 3) == 't' && path.get_char(p0 + 4) == 'o' && path.get_char(
        p0 + 5,
    ) == 's' && path.get_char(p0 + 6) == '/';
    proof {
        if prefix_ok {
            assert(path@.subrange(p0 as int, p0 + 7) =~= "Photos/"@);
        }
    }
    if !prefix_ok {
        proof {
            if path@.subrange(p0 as int, p0 + 7) == "Photos/"@ {
                reveal_strlit("Photos/");
                let sub = path@.subrange(p0 as int, p0 + 7);
                assert(sub[0] == 'P' && sub[1] == 'h' && sub[2] == 'o' && sub[3] == 't' && sub[4]
                    == 'o' && sub[5] == 's' && sub[6] == '/');
                assert(path@[p0 as int] == 'P' && path@[p0 + 1] == 'h' && path@[p0 + 2] == 'o'
                    && path@[p0 + 3] == 't' && path@[p0 + 4] == 'o' && path@[p0 + 5] == 's'
                    && path@[p0 + 6] == '/');
            }
        }
        return None;
    }
    proof {
        lemma_first_index_of(path@.skip(p0 + 7), '/');
    }
    let id_start = p0 + 7;
    let ghost rel = first_index_of(path@.skip(id_start as int), '/');
    let mut j = id_start;
    while j < n
        invariant
            id_start <= j <= n,
            forall|m: int|
                id_start <= m < j ==> is_alnum(#[trigger] path@[m]) && path@[m] != '/',
        decreases n - j,
    {
        let c = path.get_char(j);
        proof {
            assert(path@.skip(id_start as int)[j - id_start] == path@[j as int]);
        }
        if c == '/' {
            // first '/' after the id segment: everything before it is alnum
            proof {
                assert forall|m: int| 0 <= m < j - id_start implies path@.skip(id_start as int)[m]
                    != '/' by {
                    assert(path@.skip(id_start as int)[m] == path@[id_start + m]);
                }
                if rel >= 0 {
                    assert(path@.skip(id_start as int)[rel] == path@[id_start + rel]);
                }
                assert(rel == j - id_start);
            }
            if j == id_start {
                // empty id segment
                return None;
            }
            // the tail may not hold a line break
            let mut t = j + 1;
            while t < n
                invariant
                    j + 1 <= t <= n,
                    forall|m: int| j + 1 <= m < t ==> #[trigger] path@[m] != '\n',
                decreases n - t,
            {
                if path.get_char(t) == '\n' {
                    return None;
                }
                t += 1;
            }
            let mut out = "./".to_owned();
            let head = path.substring_char(0, id_start);
            let tail = path.substring_char(j + 1, n);
            out.append(head);
            out.append(tail);
            proof {
                assert(head@ =~= path@.take(id_start as int));
                assert(tail@ =~= path@.skip(j + 1));
                assert(out@ =~= "./"@ + path@.take(id_start as int) + path@.skip(j + 1));
            }
            return Some(out);
        }
        let alnum = ('a' <= c && c <= 'z') || ('A' <= c && c <= 'Z') || ('0' <= c && c <= '9');
        if !alnum {
            proof {
                // a later slash, if any, lies beyond this non-alnum char
                if rel >= 0 {
                    assert(path@.skip(id_start as int)[rel] == path@[id_start + rel]);
                    assert(id_start + rel > j);
                    assert(!is_alnum(path@[j as int]));
                }
            }
            return None;
        }
        j += 1;
    }
    // no '/' after the id segment at all
    proof {
        if rel >= 0 {
            assert(path@.skip(id_start as int)[rel] == path@[id_start + rel]);
        }
    }
    None
}

/// Sanitize a media path, reporting the path itself when it is not
/// recognised.
pub fn bereal_path_sanitize_to_pathbuf(path: &str) -> (r: Result<String, String>)
    ensures
        r is Ok <==> spec_strip_bereal_id(path@) is Some,
        r is Ok ==> r->Ok_0@ == spec_strip_bereal_id(path@)->Some_0,
        r is Err ==> r->Err_0@ == "BeReal path not recognised! "@ + path@,
{
    match strip_bereal_id_from_path(path) {
        Some(p) => Ok(p),
        None => {
            let mut m = "BeReal path not recognised! ".to_owned();
            m.append(path);
            Err(m)
        },
    }
}

/// One media entry of the export's JSON: a path tagged as image or video.
#[derive(Debug)]
pub enum MediaEntry {
    Image { path: String },
    Video { path: String },
}

/// Build a moment record from decoded JSON pieces: both camera shots must be
/// images with recognised paths; an attached video of the behind-the-scenes
/// kind is kept when its path is recognised and dropped otherwise.
pub fn moment_from_parts(
    front: &MediaEntry,
    back: &MediaEntry,
    bts: Option<&MediaEntry>,
    caption: Option<String>,
    song: Option<BerealSongData>,
    time_taken: DateTime,
    late: bool,
) -> (r: Result<BerealMomentRecord, String>)
    ensures
        r is Ok <==> (front is Image && back is Image && spec_strip_bereal_id(
            front->Image_path@,
        ) is Some && spec_strip_bereal_id(back->Image_path@) is Some),
        r is Ok ==> ({
            let m = r->Ok_0;
            &&& m.front_camera_path@ == spec_strip_bereal_id(front->Image_path@)->Some_0
            &&& m.back_camera_path@ == spec_strip_bereal_id(back->Image_path@)->Some_0
            &&& m.caption == caption
            &&& m.song == song
            &&& m.naive_time_taken == time_taken
            &&& m.late == late
            &&& (match bts {
                Some(MediaEntry::Video { path }) => {
                    if spec_strip_bereal_id(path@) is Some {
                        m.behind_the_scenes matches Some(BerealBTSData::Video { path: p })
                            && p@ == spec_strip_bereal_id(path@)->Some_0
                    } else {
                        m.behind_the_scenes is None
                    }
                },
                _ => m.behind_the_scenes is None,
            })
        }),
        r is Err ==> r->Err_0@ == (if back !is Image {
            "Invalid media type for back image!"@
        } else if spec_strip_bereal_id(back->Image_path@) is None {
            "BeReal path not recognised! "@ + back->Image_path@
        } else if front !is Image {
            "Invalid media type for front image!"@
        } else {
            "BeReal path not recognised! "@ + front->Image_path@
        }),
{
    let back_path = match back {
        MediaEntry::Image { path } => bereal_path_sanitize_to_pathbuf(path.as_str()),
        _ => Err("Invalid media type for back image!".to_owned()),
    };
    let back_path = match back_path {
        Ok(p) => p,
        Err(e) => {
            return Err(e);
        },
    };
    let front_path = match front {
        MediaEntry::Image { path } => bereal_path_sanitize_to_pathbuf(path.as_str()),
        _ => Err("Invalid media type for front image!".to_owned()),
    };
    let front_path = match front_path {
        Ok(p) => p,
        Err(e) => {
            return Err(e);
        },
    };
    let behind_the_scenes = match bts {
        Some(MediaEntry::Video { path }) => match strip_bereal_id_from_path(path.as_str()) {
            Some(p) => Some(BerealBTSData::Video { path: p }),
            None => None,
        },
        _ => None,
    };
    let rec = BerealMomentRecord {
        back_camera_path: back_path,
        front_camera_path: front_path,
        caption,
        naive_time_taken: time_taken,
        late,
        song,
        behind_the_scenes,
    };
    Ok(rec)
}

/// Build a realmoji record from decoded JSON pieces: the emoji string must
/// not be empty (only its first character is kept), and the image path must
/// be recognised.
pub fn realmoji_from_parts(
    media_path: &str,
    emoji: &str,
    instant: bool,
    post_time: DateTime,
) -> (r: Result<BerealRealmojiRecord, String>)
    ensures
        r is Ok <==> (emoji@.len() > 0 && spec_strip_bereal_id(media_path@) is Some),
        r is Ok ==> ({
            let m = r->Ok_0;
            &&& m.emoji@ == seq![emoji@[0]]
            &&& m.image_path@ == spec_strip_bereal_id(media_path@)->Some_0
            &&& m.is_instant == instant
            &&& m.post_time == post_time
        }),
        r is Err ==> r->Err_0@ == (if emoji@.len() == 0 {
            "Realmoji has no emoji association"@
        } else {
            "BeReal path not recognised! "@ + media_path@
        }),
{
    if emoji.unicode_len() == 0 {
        return Err("Realmoji has no emoji association".to_owned());
    }
    let first = emoji.substring_char(0, 1);
    proof {
        assert(first@ =~= seq![emoji@[0]]);
    }
    let image_path = match bereal_path_sanitize_to_pathbuf(media_path) {
        Ok(p) => p,
        Err(e) => {
            return Err(e);
        },
    };
    Ok(
        BerealRealmojiRecord {
            emoji: first.to_owned(),
            image_path,
            is_instant: instant,
            post_time,
        },
    )
}

} // verus!
