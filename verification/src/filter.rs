//! Filtering of moments by a caption pattern and by capture-time intervals.
//! The regular-expression engine sits behind trusted wrappers; which moments
//! pass, and when the whole call fails, is verified.

use vstd::prelude::*;
use crate::args::TimeInterval;
use crate::parser::BerealMomentRecord;
use crate::text::{lower_of, lowercase};

verus! {

#[verifier::external_type_specification]
#[verifier::external_body]
pub struct ExRegex(regex::Regex);

/// Whether a pattern compiles as a regular expression, as regex::Regex::new
/// decides it.
pub uninterp spec fn regex_compiles(pattern: Seq<char>) -> bool;

/// The pattern a compiled regular expression was built from, as
/// regex::Regex::as_str returns it.
pub uninterp spec fn regex_source(re: regex::Regex) -> Seq<char>;

/// Whether a pattern matches somewhere in a text, as regex::Regex::is_match
/// decides it.
pub uninterp spec fn regex_match(pattern: Seq<char>, text: Seq<char>) -> bool;

/// Relies on regex::Regex::new: compiling is a function of the pattern text,
/// and the compiled value keeps that pattern (its `as_str`).
#[verifier::external_body]
fn regex_new(pattern: &str) -> (r: Result<regex::Regex, String>)
    ensures
        r is Ok <==> regex_compiles(pattern@),
        r is Ok ==> regex_source(r->Ok_0) == pattern@,
{
    regex::Regex::new(pattern).map_err(|e| e.to_string())
}

/// Relies on regex::Regex::is_match: whether a text matches is a function of
/// the compiled pattern and the text.
#[verifier::external_body]
fn regex_is_match(re: &regex::Regex, text: &str) -> (r: bool)
    ensures
        r == regex_match(regex_source(*re), text@),
{
    re.is_match(text)
}

/// The caption text a moment is filtered on: its caption, or nothing.
pub open spec fn spec_caption_text(m: BerealMomentRecord) -> Seq<char> {
    match m.caption {
        Some(c) => c@,
        None => Seq::empty(),
    }
}

/// Whether a capture time lies in a closed interval.
pub open spec fn spec_in_interval(t: crate::time::DateTime, iv: TimeInterval) -> bool {
    iv.from.key() <= t.key() && t.key() <= iv.to.key()
}

/// Whether a moment passes the filters: its lowercased caption matches the
/// lowercased pattern (if one is given), and its capture time lies in one of
/// the intervals (if any are given).
pub open spec fn spec_passes(
    m: BerealMomentRecord,
    pattern: Option<Seq<char>>,
    intervals: Seq<TimeInterval>,
) -> bool {
    &&& (match pattern {
        Some(p) => regex_match(p, lower_of(spec_caption_text(m))),
        None => true,
    })
    &&& (intervals.len() == 0 || exists|k: int|
        0 <= k < intervals.len() && spec_in_interval(m.naive_time_taken, #[trigger] intervals[k]))
}

/// The moments that pass the filters, in order.
pub open spec fn spec_filter_moments(
    moments: Seq<BerealMomentRecord>,
    pattern: Option<Seq<char>>,
    intervals: Seq<TimeInterval>,
) -> Seq<BerealMomentRecord>
    decreases moments.len(),
{
    if moments.len() == 0 {
        Seq::empty()
    } else {
        spec_filter_moments(moments.drop_last(), pattern, intervals) + (if spec_passes(
            moments.last(),
            pattern,
            intervals,
        ) {
            seq![moments.last()]
        } else {
            Seq::empty()
        })
    }
}

/// With no pattern and no intervals, every moment passes.
proof fn lemma_filter_all_pass(
    moments: Seq<BerealMomentRecord>,
    pattern: Option<Seq<char>>,
    intervals: Seq<TimeInterval>,
)
    requires
        pattern is None,
        intervals.len() == 0,
    ensures
        spec_filter_moments(moments, pattern, intervals) == moments,
    decreases moments.len(),
{
    if moments.len() == 0 {
        assert(spec_filter_moments(moments, pattern, intervals) =~= moments);
    } else {
        lemma_filter_all_pass(moments.drop_last(), pattern, intervals);
        assert(spec_filter_moments(moments, pattern, intervals) =~= moments);
    }
}

/// Filter moments by an optional caption pattern (matched against the
/// lowercased caption, with the pattern itself lowercased first) and by a
/// list of allowed capture-time intervals; a moment passes when its time lies
/// in any of them, or the list is empty. A pattern that does not compile
/// fails the whole call.
#[verifier::loop_isolation(false)]
pub fn filter_moments(
    moments: Vec<BerealMomentRecord>,
    caption_regex: Option<String>,
    intervals_allowed: Vec<TimeInterval>,
) -> (r: Result<Vec<BerealMomentRecord>, String>)
    requires
        forall|i: int|
            0 <= i < moments@.len() ==> (#[trigger] moments@[i]).naive_time_taken.wf(),
        forall|k: int|
            0 <= k < intervals_allowed@.len() ==> (#[trigger] intervals_allowed@[k]).from.wf()
                && intervals_allowed@[k].to.wf(),
    ensures
        ({
            let pattern = match caption_regex {
                Some(p) => Some(lower_of(p@)),
                None => None,
            };
            &&& (r is Ok <==> (pattern matches Some(p) ==> regex_compiles(p)))
            &&& (r is Ok ==> r->Ok_0@ == spec_filter_moments(
                moments@,
                pattern,
                intervals_allowed@,
            ))
            &&& (r is Err ==> exists|detail: Seq<char>|
                r->Err_0@ == "invalid regex: "@ + detail)
        }),
{
    let compiled: Option<regex::Regex> = match &caption_regex {
        Some(rexp) => {
            let lowered = lowercase(rexp.as_str());
            match regex_new(lowered.as_str()) {
                Ok(re) => Some(re),
                Err(e) => {
                    let mut m = "invalid regex: ".to_owned();
                    m.append(e.as_str());
                    proof {
                        assert(m@ == "invalid regex: "@ + e@);
                    }
                    return Err(m);
                },
            }
        },
        None => None,
    };
    let ghost pattern: Option<Seq<char>> = if caption_regex is Some {
        Some(lower_of(caption_regex->Some_0@))
    } else {
        None
    };
    let time_fillter_present = intervals_allowed.len() > 0;
    let no_regex = match &caption_regex {
        Some(_) => false,
        None => true,
    };
    if no_regex && !time_fillter_present {
        proof {
            lemma_filter_all_pass(moments@, pattern, intervals_allowed@);
        }
        return Ok(moments);
    }
    let mut result: Vec<BerealMomentRecord> = Vec::new();
    let mut i: usize = 0;
    while i < moments.len()
        invariant
            0 <= i <= moments@.len(),
            result@ == spec_filter_moments(moments@.take(i as int), pattern, intervals_allowed@),
        decreases moments@.len() - i,
    {
        proof {
            assert(moments@.take(i + 1).drop_last() =~= moments@.take(i as int));
            assert(moments@.take(i + 1).last() == moments@[i as int]);
        }
        let photo = &moments[i];
        let caption_text = match &photo.caption {
            Some(c) => c.clone(),
            None => String::new(),
        };
        let lowered_caption = lowercase(caption_text.as_str());
        let mut pass = true;
        match &compiled {
            Some(re) => {
                pass = regex_is_match(re, lowered_caption.as_str());
            },
            None => {},
        }
        if pass && time_fillter_present {
            let mut found = false;
            let mut k: usize = 0;
            while k < intervals_allowed.len()
                invariant
                    0 <= k <= intervals_allowed@.len(),
                    0 <= i < moments@.len(),
                    found == exists|t: int|
                        0 <= t < k && spec_in_interval(
                            moments@[i as int].naive_time_taken,
                            #[trigger] intervals_allowed@[t],
                        ),
                decreases intervals_allowed@.len() - k,
            {
                let iv = &intervals_allowed[k];
                if iv.from.le(&photo.naive_time_taken) && photo.naive_time_taken.le(&iv.to) {
                    found = true;
                }
                k += 1;
            }
            pass = found;
        }
        if pass {
            result.push(photo.clone());
        }
        proof {
            assert(result@ =~= spec_filter_moments(
                moments@.take(i + 1),
                pattern,
                intervals_allowed@,
            ));
        }
        i += 1;
    }
    proof {
        assert(moments@.take(moments@.len() as int) =~= moments@);
    }
    Ok(result)
}

} // verus!
