//! Grouping of parsed records into output specifications: where each
//! exported item's files go, and under what name prefix.

use vstd::prelude::*;
use crate::args::{MemoriesGrouping, RealmojiGrouping};
use crate::parser::{BerealMomentRecord, BerealRealmojiRecord};
use crate::text::{
    spec_padded_decimal, padded_decimal_string, spec_join_path, join_path, lower_of, lowercase,
    spec_replace, replace_char_with,
};
use crate::time::DateTime;

verus! {

/// Where one moment's outputs are saved, relative to the output directory.
#[derive(Debug)]
pub struct OutputMomentSpec {
    pub folder: String,
    pub file_name_prefix: String,
    pub moment: BerealMomentRecord,
}

impl Clone for OutputMomentSpec {
    fn clone(&self) -> (r: Self)
        ensures
            r == *self,
    {
        OutputMomentSpec {
            folder: self.folder.clone(),
            file_name_prefix: self.file_name_prefix.clone(),
            moment: self.moment.clone(),
        }
    }
}

/// Where one realmoji's output is saved, relative to the output directory.
#[derive(Debug)]
pub struct OutputRealmojiSpec {
    pub folder: String,
    pub file_name_prefix: String,
    pub image_file: String,
}

/// Spec-level image of `OutputRealmojiSpec`.
pub struct RealmojiOutputModel {
    pub folder: Seq<char>,
    pub file_name_prefix: Seq<char>,
    pub image_file: Seq<char>,
}

impl View for OutputRealmojiSpec {
    type V = RealmojiOutputModel;

    open spec fn view(&self) -> RealmojiOutputModel {
        RealmojiOutputModel {
            folder: self.folder@,
            file_name_prefix: self.file_name_prefix@,
            image_file: self.image_file@,
        }
    }
}

/// The file-name prefix of a moment: its capture time as
/// `YYYY-MM-DDTHH-MM-SS`.
pub open spec fn spec_name_prefix(t: DateTime) -> Seq<char> {
    spec_padded_decimal(t.year as int, 4) + "-"@ + spec_padded_decimal(t.month as int, 2) + "-"@
        + spec_padded_decimal(t.day as int, 2) + "T"@ + spec_padded_decimal(t.hour as int, 2)
        + "-"@ + spec_padded_decimal(t.minute as int, 2) + "-"@ + spec_padded_decimal(
        t.second as int,
        2,
    )
}

/// Format a moment's file-name prefix from its capture time.
pub fn translate_bereal_moment_to_name_prefix(moment: &BerealMomentRecord) -> (r: String)
    ensures
        r@ == spec_name_prefix(moment.naive_time_taken),
{
    let t = &moment.naive_time_taken;
    let mut out = padded_decimal_string(t.year as u64, 4);
    out.append("-");
    let part = padded_decimal_string(t.month as u64, 2);
    out.append(part.as_str());
    out.append("-");
    let part = padded_decimal_string(t.day as u64, 2);
    out.append(part.as_str());
    out.append("T");
    let part = padded_decimal_string(t.hour as u64, 2);
    out.append(part.as_str());
    out.append("-");
    let part = padded_decimal_string(t.minute as u64, 2);
    out.append(part.as_str());
    out.append("-");
    let part = padded_decimal_string(t.second as u64, 2);
    out.append(part.as_str());
    out
}

/// The folder a moment's outputs go to under each grouping: nothing, the
/// year, year/month, year/month/day, or a flat date folder.
pub open spec fn spec_group_folder(grouping: MemoriesGrouping, t: DateTime) -> Seq<char> {
    let y = spec_padded_decimal(t.year as int, 4);
    let m = spec_padded_decimal(t.month as int, 2);
    let d = spec_padded_decimal(t.day as int, 2);
    match grouping {
        MemoriesGrouping::Ungrouped => Seq::empty(),
        MemoriesGrouping::Year => y,
        MemoriesGrouping::Month => y + "/"@ + m,
        MemoriesGrouping::Day => y + "/"@ + m + "/"@ + d,
        MemoriesGrouping::DayFlat => y + "-"@ + m + "-"@ + d,
    }
}

/// Append each moment's year folder to its spec.
fn group_year(result: &mut Vec<OutputMomentSpec>)
    ensures
        final(result)@.len() == old(result)@.len(),
        forall|i: int|
            0 <= i < old(result)@.len() ==> {
                let s = #[trigger] final(result)@[i];
                &&& s.moment == old(result)@[i].moment
                &&& s.file_name_prefix == old(result)@[i].file_name_prefix
                &&& s.folder@ == spec_join_path(
                    old(result)@[i].folder@,
                    spec_padded_decimal(old(result)@[i].moment.naive_time_taken.year as int, 4),
                )
            },
{
    let mut out: Vec<OutputMomentSpec> = Vec::new();
    let mut i: usize = 0;
    while i < result.len()
        invariant
            0 <= i <= result@.len(),
            out@.len() == i,
            forall|j: int|
                0 <= j < i ==> {
                    let s = #[trigger] out@[j];
                    &&& s.moment == result@[j].moment
                    &&& s.file_name_prefix == result@[j].file_name_prefix
                    &&& s.folder@ == spec_join_path(
                        result@[j].folder@,
                        spec_padded_decimal(result@[j].moment.naive_time_taken.year as int, 4),
                    )
                },
        decreases result@.len() - i,
    {
        let item = &result[i];
        let y = padded_decimal_string(item.moment.naive_time_taken.year as u64, 4);
        out.push(
            OutputMomentSpec {
                folder: join_path(item.folder.as_str(), y.as_str()),
                file_name_prefix: item.file_name_prefix.clone(),
                moment: item.moment.clone(),
            },
        );
        i += 1;
    }
    *result = out;
}

/// Append each moment's month folder to its spec.
fn group_month(result: &mut Vec<OutputMomentSpec>)
    ensures
        final(result)@.len() == old(result)@.len(),
        forall|i: int|
            0 <= i < old(result)@.len() ==> {
                let s = #[trigger] final(result)@[i];
                &&& s.moment == old(result)@[i].moment
                &&& s.file_name_prefix == old(result)@[i].file_name_prefix
                &&& s.folder@ == spec_join_path(
                    old(result)@[i].folder@,
                    spec_padded_decimal(old(result)@[i].moment.naive_time_taken.month as int, 2),
                )
            },
{
    let mut out: Vec<OutputMomentSpec> = Vec::new();
    let mut i: usize = 0;
    while i < result.len()
        invariant
            0 <= i <= result@.len(),
            out@.len() == i,
            forall|j: int|
                0 <= j < i ==> {
                    let s = #[trigger] out@[j];
                    &&& s.moment == result@[j].moment
                    &&& s.file_name_prefix == result@[j].file_name_prefix
                    &&& s.folder@ == spec_join_path(
                        result@[j].folder@,
                        spec_padded_decimal(result@[j].moment.naive_time_taken.month as int, 2),
                    )
                },
        decreases result@.len() - i,
    {
        let item = &result[i];
        let m = padded_decimal_string(item.moment.naive_time_taken.month as u64, 2);
        out.push(
            OutputMomentSpec {
                folder: join_path(item.folder.as_str(), m.as_str()),
                file_name_prefix: item.file_name_prefix.clone(),
                moment: item.moment.clone(),
            },
        );
        i += 1;
    }
    *result = out;
}

/// The folder component `group_day` appends: the day alone, or — flat — the
/// whole date.
pub open spec fn spec_day_component(t: DateTime, flat: bool) -> Seq<char> {
    if flat {
        spec_padded_decimal(t.year as int, 4) + "-"@ + spec_padded_decimal(t.month as int, 2)
            + "-"@ + spec_padded_decimal(t.day as int, 2)
    } else {
        spec_padded_decimal(t.day as int, 2)
    }
}

/// Append each moment's day folder (or flat date folder) to its spec.
fn group_day(result: &mut Vec<OutputMomentSpec>, flat: bool)
    ensures
        final(result)@.len() == old(result)@.len(),
        forall|i: int|
            0 <= i < old(result)@.len() ==> {
                let s = #[trigger] final(result)@[i];
                &&& s.moment == old(result)@[i].moment
                &&& s.file_name_prefix == old(result)@[i].file_name_prefix
                &&& s.folder@ == spec_join_path(
                    old(result)@[i].folder@,
                    spec_day_component(old(result)@[i].moment.naive_time_taken, flat),
                )
            },
{
    let mut out: Vec<OutputMomentSpec> = Vec::new();
    let mut i: usize = 0;
    while i < result.len()
        invariant
            0 <= i <= result@.len(),
            out@.len() == i,
            forall|j: int|
                0 <= j < i ==> {
                    let s = #[trigger] out@[j];
                    &&& s.moment == result@[j].moment
                    &&& s.file_name_prefix == result@[j].file_name_prefix
                    &&& s.folder@ == spec_join_path(
                        result@[j].folder@,
                        spec_day_component(result@[j].moment.naive_time_taken, flat),
                    )
                },
        decreases result@.len() - i,
    {
        let item = &result[i];
        let t = &item.moment.naive_time_taken;
        let component = if flat {
            let mut c = padded_decimal_string(t.year as u64, 4);
            c.append("-");
            let part = padded_decimal_string(t.month as u64, 2);
            c.append(part.as_str());
            c.append("-");
            let part = padded_decimal_string(t.day as u64, 2);
            c.append(part.as_str());
            c
        } else {
            padded_decimal_string(t.day as u64, 2)
        };
        proof {
            assert(component@ == spec_day_component(item.moment.naive_time_taken, flat));
        }
        out.push(
            OutputMomentSpec {
                folder: join_path(item.folder.as_str(), component.as_str()),
                file_name_prefix: item.file_name_prefix.clone(),
                moment: item.moment.clone(),
            },
        );
        i += 1;
    }
    *result = out;
}

/// Group moments into output specs: every moment keeps its place, gets its
/// capture time as file-name prefix, and is assigned the folder its grouping
/// calls for.
pub fn group_moments(moments: &Vec<BerealMomentRecord>, grouping: MemoriesGrouping) -> (r: Result<
    Vec<OutputMomentSpec>,
    String,
>)
    ensures
        r is Ok,
        r->Ok_0@.len() == moments@.len(),
        forall|i: int|
            0 <= i < moments@.len() ==> {
                let s = #[trigger] r->Ok_0@[i];
                &&& s.moment == moments@[i]
                &&& s.file_name_prefix@ == spec_name_prefix(moments@[i].naive_time_taken)
                &&& s.folder@ == spec_group_folder(grouping, moments@[i].naive_time_taken)
            },
{
    let mut result: Vec<OutputMomentSpec> = Vec::new();
    let mut i: usize = 0;
    while i < moments.len()
        invariant
            0 <= i <= moments@.len(),
            result@.len() == i,
            forall|j: int|
                0 <= j < i ==> {
                    let s = #[trigger] result@[j];
                    &&& s.moment == moments@[j]
                    &&& s.file_name_prefix@ == spec_name_prefix(moments@[j].naive_time_taken)
                    &&& s.folder@.len() == 0
                },
        decreases moments@.len() - i,
    {
        let moment = &moments[i];
        result.push(
            OutputMomentSpec {
                file_name_prefix: translate_bereal_moment_to_name_prefix(moment),
                folder: String::new(),
                moment: moment.clone(),
            },
        );
        i += 1;
    }
    match grouping {
        MemoriesGrouping::Ungrouped => {
            proof {
                lemma_folder_shape(&result, moments, grouping);
            }
            Ok(result)
        },
        MemoriesGrouping::Year => {
            group_year(&mut result);
            proof {
                lemma_folder_shape(&result, moments, grouping);
            }
            Ok(result)
        },
        MemoriesGrouping::Month => {
            group_year(&mut result);
            group_month(&mut result);
            proof {
                lemma_folder_shape(&result, moments, grouping);
            }
            Ok(result)
        },
        MemoriesGrouping::Day => {
            group_year(&mut result);
            group_month(&mut result);
            group_day(&mut result, false);
            proof {
                lemma_folder_shape(&result, moments, grouping);
            }
            Ok(result)
        },
        MemoriesGrouping::DayFlat => {
            group_day(&mut result, true);
            proof {
                lemma_folder_shape(&result, moments, grouping);
            }
            Ok(result)
        },
    }
}

/// A zero-padded decimal is never empty, so nested folder joins always add a
/// '/' separator; folded out, the folders the passes build are exactly
/// `spec_group_folder`.
proof fn lemma_folder_shape(
    result: &Vec<OutputMomentSpec>,
    moments: &Vec<BerealMomentRecord>,
    grouping: MemoriesGrouping,
)
    requires
        result@.len() == moments@.len(),
        forall|i: int|
            0 <= i < moments@.len() ==> {
                let s = #[trigger] result@[i];
                &&& s.moment == moments@[i]
                &&& (match grouping {
                    MemoriesGrouping::Ungrouped => s.folder@.len() == 0,
                    MemoriesGrouping::Year => s.folder@ == spec_join_path(
                        Seq::empty(),
                        spec_padded_decimal(moments@[i].naive_time_taken.year as int, 4),
                    ),
                    MemoriesGrouping::Month => s.folder@ == spec_join_path(
                        spec_join_path(
                            Seq::empty(),
                            spec_padded_decimal(moments@[i].naive_time_taken.year as int, 4),
                        ),
                        spec_padded_decimal(moments@[i].naive_time_taken.month as int, 2),
                    ),
                    MemoriesGrouping::Day => s.folder@ == spec_join_path(
                        spec_join_path(
                            spec_join_path(
                                Seq::empty(),
                                spec_padded_decimal(moments@[i].naive_time_taken.year as int, 4),
                            ),
                            spec_padded_decimal(moments@[i].naive_time_taken.month as int, 2),
                        ),
                        spec_day_component(moments@[i].naive_time_taken, false),
                    ),
                    MemoriesGrouping::DayFlat => s.folder@ == spec_join_path(
                        Seq::empty(),
                        spec_day_component(moments@[i].naive_time_taken, true),
                    ),
                })
            },
    ensures
        forall|i: int|
            0 <= i < moments@.len() ==> (#[trigger] result@[i]).folder@ == spec_group_folder(
                grouping,
                moments@[i].naive_time_taken,
            ),
{
    assert forall|i: int| 0 <= i < moments@.len() implies (#[trigger] result@[i]).folder@
        == spec_group_folder(grouping, moments@[i].naive_time_taken) by {
        let t = moments@[i].naive_time_taken;
        let y = spec_padded_decimal(t.year as int, 4);
        let m = spec_padded_decimal(t.month as int, 2);
        let d = spec_padded_decimal(t.day as int, 2);
        crate::text::lemma_padded_decimal_len(t.year as int, 4);
        crate::text::lemma_padded_decimal_len(t.month as int, 2);
        crate::text::lemma_padded_decimal_len(t.day as int, 2);
        crate::text::lemma_padded_decimal_last(t.year as int, 4);
        crate::text::lemma_padded_decimal_last(t.month as int, 2);
        reveal_strlit("/");
        assert(y.last() != '/' && m.last() != '/');
        match grouping {
            MemoriesGrouping::Ungrouped => {
                assert(result@[i].folder@ =~= Seq::<char>::empty());
            },
            MemoriesGrouping::Year => {},
            MemoriesGrouping::Month => {
                assert(result@[i].folder@ =~= y + "/"@ + m);
            },
            MemoriesGrouping::Day => {
                assert((y + "/"@ + m).last() == m.last());
                assert(result@[i].folder@ =~= y + "/"@ + m + "/"@ + d);
            },
            MemoriesGrouping::DayFlat => {
                assert(result@[i].folder@ =~= y + "-"@ + m + "-"@ + d);
            },
        }
    }
}

/// What the unicode name lookup of a character yields, as
/// unic-ucd-name's `Name::of` and its display form give it.
pub uninterp spec fn unicode_name(c: char) -> Option<Seq<char>>;

/// Relies on unic_ucd_name::Name::of and the Display form of the returned
/// Name: whether a character has a name, and the name itself, are functions
/// of the character alone.
#[verifier::external_body]
fn char_name(c: char) -> (r: Option<String>)
    ensures
        r is Some <==> unicode_name(c) is Some,
        r is Some ==> r->Some_0@ == unicode_name(c)->Some_0,
{
    unic_ucd_name::Name::of(c).map(|n| n.to_string())
}

/// The folder a realmoji grouped by emoji goes to: the lowercased unicode
/// name of its emoji character with spaces dashed, or a placeholder for a
/// character without a name.
pub open spec fn spec_emoji_folder(c: char) -> Seq<char> {
    match unicode_name(c) {
        Some(n) => spec_replace(lower_of(n), ' ', "-"@),
        None => "unknown-character"@,
    }
}

/// The grouping key of a realmoji: realmojis with the same key share a
/// folder, and image paths are deduplicated within one key.
pub open spec fn spec_realmoji_key(grouping: RealmojiGrouping, m: BerealRealmojiRecord) -> Seq<
    char,
> {
    match grouping {
        RealmojiGrouping::Ungrouped => Seq::empty(),
        RealmojiGrouping::Instant => if m.is_instant {
            "instant"@
        } else {
            "non-instant"@
        },
        RealmojiGrouping::Emoji => m.emoji@,
    }
}

/// The folder of a realmoji under each grouping.
pub open spec fn spec_realmoji_folder(grouping: RealmojiGrouping, m: BerealRealmojiRecord) -> Seq<
    char,
> {
    match grouping {
        RealmojiGrouping::Ungrouped => Seq::empty(),
        RealmojiGrouping::Instant => if m.is_instant {
            "instant"@
        } else {
            "non-instant"@
        },
        RealmojiGrouping::Emoji => spec_emoji_folder(m.emoji@[0]),
    }
}

/// The output specs realmoji grouping produces: walking the records in
/// order, a record whose image path was already seen under the same key is
/// dropped; every other record is emitted with its folder and a running
/// `realmoji-<n>` name prefix counting the emitted records.
pub open spec fn spec_realmoji_outputs(
    mojis: Seq<BerealRealmojiRecord>,
    keys: Seq<Seq<char>>,
    folders: Seq<Seq<char>>,
) -> Seq<RealmojiOutputModel>
    recommends
        keys.len() == mojis.len(),
        folders.len() == mojis.len(),
    decreases mojis.len(),
{
    if mojis.len() == 0 {
        Seq::empty()
    } else {
        let prev = spec_realmoji_outputs(
            mojis.drop_last(),
            keys.take(mojis.len() - 1),
            folders.take(mojis.len() - 1),
        );
        let m = mojis.last();
        let key = keys[mojis.len() - 1];
        let seen = exists|j: int|
            0 <= j < mojis.len() - 1 && keys[j] == key && (#[trigger] mojis[j]).image_path@
                == m.image_path@;
        if seen {
            prev
        } else {
            prev.push(
                RealmojiOutputModel {
                    folder: folders[mojis.len() - 1],
                    file_name_prefix: "realmoji-"@ + crate::text::spec_decimal(prev.len() as int),
                    image_file: m.image_path@,
                },
            )
        }
    }
}

/// Group realmojis by precomputed keys and folders, deduplicating image
/// paths within each key and numbering the emitted outputs.
#[verifier::loop_isolation(false)]
fn realmoji_group_by(
    mojis: &Vec<BerealRealmojiRecord>,
    keys: &Vec<String>,
    folders: &Vec<String>,
) -> (r: Vec<OutputRealmojiSpec>)
    requires
        keys@.len() == mojis@.len(),
        folders@.len() == mojis@.len(),
    ensures
        r@.map_values(|s: OutputRealmojiSpec| s@) == spec_realmoji_outputs(
            mojis@,
            keys@.map_values(|k: String| k@),
            folders@.map_values(|f: String| f@),
        ),
{
    let ghost key_views = keys@.map_values(|k: String| k@);
    let ghost folder_views = folders@.map_values(|f: String| f@);
    let mut result: Vec<OutputRealmojiSpec> = Vec::new();
    let mut moji_counter: usize = 0;
    let mut i: usize = 0;
    while i < mojis.len()
        invariant
            0 <= i <= mojis@.len(),
            keys@.len() == mojis@.len(),
            folders@.len() == mojis@.len(),
            key_views == keys@.map_values(|k: String| k@),
            folder_views == folders@.map_values(|f: String| f@),
            moji_counter == result@.len(),
            result@.len() <= i,
            result@.map_values(|s: OutputRealmojiSpec| s@) == spec_realmoji_outputs(
                mojis@.take(i as int),
                key_views.take(i as int),
                folder_views.take(i as int),
            ),
        decreases mojis@.len() - i,
    {
        let ghost prev_models = result@.map_values(|s: OutputRealmojiSpec| s@);
        let ghost ms = mojis@.take(i + 1);
        let ghost ks = key_views.take(i + 1);
        let ghost fs = folder_views.take(i + 1);
        proof {
            assert(ms.drop_last() =~= mojis@.take(i as int));
            assert(ks.take(i as int) =~= key_views.take(i as int));
            assert(fs.take(i as int) =~= folder_views.take(i as int));
        }
        let mut seen = false;
        let mut j: usize = 0;
        while j < i
            invariant
                0 <= j <= i,
                seen == exists|t: int|
                    0 <= t < j && keys@[t]@ == keys@[i as int]@ && (
                    #[trigger] mojis@[t]).image_path@ == mojis@[i as int].image_path@,
            decreases i - j,
        {
            if keys[j].eq(&keys[i]) && mojis[j].image_path.eq(&mojis[i].image_path) {
                seen = true;
            }
            j += 1;
        }
        proof {
            let spec_seen = exists|t: int|
                0 <= t < ms.len() - 1 && ks[t] == ks[i as int] && (#[trigger] ms[t]).image_path@
                    == ms.last().image_path@;
            if seen {
                let t = choose|t: int|
                    0 <= t < i && keys@[t]@ == keys@[i as int]@ && (
                    #[trigger] mojis@[t]).image_path@ == mojis@[i as int].image_path@;
                assert(ks[t] == key_views[t] && key_views[t] == keys@[t]@);
                assert(ms[t] == mojis@[t]);
                assert(ks[i as int] == keys@[i as int]@);
                assert(spec_seen);
            } else {
                assert forall|t: int| 0 <= t < ms.len() - 1 implies !(ks[t] == ks[i as int] && (
                #[trigger] ms[t]).image_path@ == ms.last().image_path@) by {
                    assert(ks[t] == keys@[t]@);
                    assert(ms[t] == mojis@[t]);
                    assert(ks[i as int] == keys@[i as int]@);
                }
                assert(!spec_seen);
            }
        }
        if !seen {
            let mut prefix = "realmoji-".to_owned();
            let num = crate::text::decimal_string(moji_counter as u64);
            prefix.append(num.as_str());
            result.push(
                OutputRealmojiSpec {
                    file_name_prefix: prefix,
                    folder: folders[i].clone(),
                    image_file: mojis[i].image_path.clone(),
                },
            );
            moji_counter += 1;
            proof {
                let pushed = result@.map_values(|s: OutputRealmojiSpec| s@);
                assert(pushed =~= prev_models.push(result@.last()@));
                assert(fs[i as int] == folders@[i as int]@);
                assert(ms.last() == mojis@[i as int]);
                assert(pushed =~= spec_realmoji_outputs(ms, ks, fs));
            }
        } else {
            proof {
                assert(result@.map_values(|s: OutputRealmojiSpec| s@) =~= spec_realmoji_outputs(
                    ms,
                    ks,
                    fs,
                ));
            }
        }
        i += 1;
    }
    proof {
        assert(mojis@.take(mojis@.len() as int) =~= mojis@);
        assert(key_views.take(mojis@.len() as int) =~= key_views);
        assert(folder_views.take(mojis@.len() as int) =~= folder_views);
    }
    result
}

/// Deduplicate realmoji images without any grouping: one output per distinct
/// image path, numbered in order of first appearance.
fn extract_realmoji_images(mojis: &Vec<BerealRealmojiRecord>) -> (r: Vec<OutputRealmojiSpec>)
    ensures
        r@.map_values(|s: OutputRealmojiSpec| s@) == spec_realmoji_outputs(
            mojis@,
            Seq::new(mojis@.len(), |i: int| Seq::<char>::empty()),
            Seq::new(mojis@.len(), |i: int| Seq::<char>::empty()),
        ),
{
    let mut keys: Vec<String> = Vec::new();
    let mut folders: Vec<String> = Vec::new();
    let mut i: usize = 0;
    while i < mojis.len()
        invariant
            0 <= i <= mojis@.len(),
            keys@.len() == i,
            folders@.len() == i,
            forall|j: int| 0 <= j < i ==> (#[trigger] keys@[j])@.len() == 0,
            forall|j: int| 0 <= j < i ==> (#[trigger] folders@[j])@.len() == 0,
        decreases mojis@.len() - i,
    {
        keys.push(String::new());
        folders.push(String::new());
        i += 1;
    }
    let r = realmoji_group_by(mojis, &keys, &folders);
    proof {
        assert(keys@.map_values(|k: String| k@) =~~= Seq::new(
            mojis@.len(),
            |i: int| Seq::<char>::empty(),
        ));
        assert(folders@.map_values(|f: String| f@) =~~= Seq::new(
            mojis@.len(),
            |i: int| Seq::<char>::empty(),
        ));
    }
    r
}

/// Group realmojis into output specs. Grouping by emoji requires every
/// record to carry its (non-empty) emoji character.
pub fn group_realmojis(mojis: &Vec<BerealRealmojiRecord>, grouping: RealmojiGrouping) -> (r:
    Result<Vec<OutputRealmojiSpec>, String>)
    requires
        grouping is Emoji ==> forall|i: int|
            0 <= i < mojis@.len() ==> (#[trigger] mojis@[i]).emoji@.len() > 0,
    ensures
        r is Ok,
        r->Ok_0@.map_values(|s: OutputRealmojiSpec| s@) == spec_realmoji_outputs(
            mojis@,
            Seq::new(mojis@.len(), |i: int| spec_realmoji_key(grouping, mojis@[i])),
            Seq::new(mojis@.len(), |i: int| spec_realmoji_folder(grouping, mojis@[i])),
        ),
{
    match grouping {
        RealmojiGrouping::Ungrouped => {
            let r = extract_realmoji_images(mojis);
            proof {
                assert(Seq::new(mojis@.len(), |i: int| spec_realmoji_key(grouping, mojis@[i]))
                    =~~= Seq::new(mojis@.len(), |i: int| Seq::<char>::empty()));
                assert(Seq::new(mojis@.len(), |i: int| spec_realmoji_folder(grouping, mojis@[i]))
                    =~~= Seq::new(mojis@.len(), |i: int| Seq::<char>::empty()));
            }
            Ok(r)
        },
        RealmojiGrouping::Instant => {
            let mut keys: Vec<String> = Vec::new();
            let mut i: usize = 0;
            while i < mojis.len()
                invariant
                    0 <= i <= mojis@.len(),
                    keys@.len() == i,
                    forall|j: int|
                        0 <= j < i ==> (#[trigger] keys@[j])@ == spec_realmoji_key(
                            RealmojiGrouping::Instant,
                            mojis@[j],
                        ),
                decreases mojis@.len() - i,
            {
                let key = if mojis[i].is_instant {
                    "instant".to_owned()
                } else {
                    "non-instant".to_owned()
                };
                keys.push(key);
                i += 1;
            }
            let folders = clone_string_vec(&keys);
            let r = realmoji_group_by(mojis, &keys, &folders);
            proof {
                assert(keys@.map_values(|k: String| k@) =~~= Seq::new(
                    mojis@.len(),
                    |i: int| spec_realmoji_key(grouping, mojis@[i]),
                ));
                assert(folders@.map_values(|f: String| f@) =~~= Seq::new(
                    mojis@.len(),
                    |i: int| spec_realmoji_folder(grouping, mojis@[i]),
                ));
            }
            Ok(r)
        },
        RealmojiGrouping::Emoji => {
            let mut keys: Vec<String> = Vec::new();
            let mut folders: Vec<String> = Vec::new();
            let mut i: usize = 0;
            while i < mojis.len()
                invariant
                    0 <= i <= mojis@.len(),
                    keys@.len() == i,
                    folders@.len() == i,
                    forall|j: int|
                        0 <= j < mojis@.len() ==> (#[trigger] mojis@[j]).emoji@.len() > 0,
                    forall|j: int|
                        0 <= j < i ==> (#[trigger] keys@[j])@ == spec_realmoji_key(
                            RealmojiGrouping::Emoji,
                            mojis@[j],
                        ),
                    forall|j: int|
                        0 <= j < i ==> (#[trigger] folders@[j])@ == spec_realmoji_folder(
                            RealmojiGrouping::Emoji,
                            mojis@[j],
                        ),
                decreases mojis@.len() - i,
            {
                let moji = &mojis[i];
                let c = moji.emoji.as_str().get_char(0);
                let folder = match char_name(c) {
                    Some(name) => {
                        let lowered = lowercase(name.as_str());
                        replace_char_with(lowered.as_str(), ' ', "-")
                    },
                    None => "unknown-character".to_owned(),
                };
                keys.push(moji.emoji.clone());
                folders.push(folder);
                i += 1;
            }
            let r = realmoji_group_by(mojis, &keys, &folders);
            proof {
                assert(keys@.map_values(|k: String| k@) =~~= Seq::new(
                    mojis@.len(),
                    |i: int| spec_realmoji_key(grouping, mojis@[i]),
                ));
                assert(folders@.map_values(|f: String| f@) =~~= Seq::new(
                    mojis@.len(),
                    |i: int| spec_realmoji_folder(grouping, mojis@[i]),
                ));
            }
            Ok(r)
        },
    }
}

/// Clone a vector of strings.
fn clone_string_vec(v: &Vec<String>) -> (r: Vec<String>)
    ensures
        r@.len() == v@.len(),
        forall|i: int| 0 <= i < v@.len() ==> (#[trigger] r@[i])@ == v@[i]@,
{
    let mut out: Vec<String> = Vec::new();
    let mut i: usize = 0;
    while i < v.len()
        invariant
            0 <= i <= v@.len(),
            out@.len() == i,
            forall|j: int| 0 <= j < i ==> (#[trigger] out@[j])@ == v@[j]@,
        decreases v@.len() - i,
    {
        out.push(v[i].clone());
        i += 1;
    }
    out
}

} // verus!
