//! Command-line-level value types and the verified parsers for the values
//! the command line carries: time-interval filter lists and the parallelism
//! percentage.

use vstd::prelude::*;
use crate::text::{
    spec_split, split_char, all_digits, spec_digits_value, is_digit, is_number_literal,
    spec_number_value,
};
use crate::time::{DateTime, spec_parse_date, spec_parse_datetime, parse_date, parse_datetime};

verus! {

/// The image formats an export can convert to; `Unchanged` keeps the source
/// bytes and the source extension.
#[derive(Clone, Copy, Debug, PartialEq, Eq, Structural)]
pub enum ImageFormat {
    Unchanged,
    Jpeg,
    Jpg,
    Png,
}

/// How exported memories are laid out in folders.
#[derive(Clone, Copy, Debug, PartialEq, Eq, Structural)]
pub enum MemoriesGrouping {
    /// only exported media, no subdirectories, total depth: 1
    Ungrouped,
    /// subdirectories representing years, total depth: 2
    Year,
    /// subdirectories for each year-month pair in a hierarchy "OUTPUT/year/month", total depth: 3
    Month,
    /// subdirectories for each year-month-day triplet in a hierarchy "OUTPUT/year/month/day", total depth: 4
    Day,
    /// subdirectories for each calendar date identified by year, month and day, total depth: 2
    DayFlat,
}

/// How exported realmojis are laid out in folders.
#[derive(Clone, Copy, Debug, PartialEq, Eq, Structural)]
pub enum RealmojiGrouping {
    /// only exported media, no subdirectories, total depth: 1
    Ungrouped,
    /// two groups, images used in instant and non-instant realmojis, total depth: 2
    Instant,
    /// group by the unicode emoji character associated with a realmoji, total depth: 2
    Emoji,
}

/// A closed time interval used to filter moments.
#[derive(Clone, Copy, Debug, PartialEq, Eq, Structural)]
pub struct TimeInterval {
    pub from: DateTime,
    pub to: DateTime,
}

/// A time point of an interval: `YYYY-MM-DDTHH:MM:SS`, or `YYYY-MM-DD` read
/// as midnight.
pub open spec fn spec_point(s: Seq<char>) -> Option<DateTime> {
    if spec_parse_datetime(s) is Some {
        spec_parse_datetime(s)
    } else {
        spec_parse_date(s)
    }
}

/// What parsing one interval argument yields: the piece between the single
/// '+' sorted into a `from <= to` pair, or nothing when the shape is wrong.
pub open spec fn spec_interval_of(s: Seq<char>) -> Option<TimeInterval> {
    let pieces = spec_split(s, '+');
    if pieces.len() == 2 && spec_point(pieces[0]) is Some && spec_point(pieces[1]) is Some {
        let a = spec_point(pieces[0])->Some_0;
        let b = spec_point(pieces[1])->Some_0;
        if a.key() <= b.key() {
            Some(TimeInterval { from: a, to: b })
        } else {
            Some(TimeInterval { from: b, to: a })
        }
    } else {
        None
    }
}

/// The error text `parse_interval` reports for a malformed argument.
pub open spec fn spec_interval_err(s: Seq<char>) -> Seq<char> {
    if spec_split(s, '+').len() != 2 {
        "Invalid format, expecting exactly two time points."@
    } else {
        "One of the supplied time points are invalid"@
    }
}

/// Parse one time point.
fn parse_point(s: &str) -> (r: Option<DateTime>)
    ensures
        r == spec_point(s@),
        r is Some ==> r->Some_0.wf(),
{
    let r = match parse_datetime(s) {
        Some(d) => Some(d),
        None => parse_date(s),
    };
    r
}

/// Parse one interval argument: exactly two '+'-separated time points, each
/// `YYYY-MM-DDTHH:MM:SS` or `YYYY-MM-DD`, returned with the earlier point
/// first. Reports exactly which of the two rules a malformed argument broke.
pub fn parse_interval(arg: &str) -> (r: Result<TimeInterval, String>)
    ensures
        r is Ok <==> spec_interval_of(arg@) is Some,
        r is Ok ==> r->Ok_0 == spec_interval_of(arg@)->Some_0,
        r is Err ==> r->Err_0@ == spec_interval_err(arg@),
{
    let pieces = split_char(arg, '+');
    if pieces.len() != 2 {
        return Err("Invalid format, expecting exactly two time points.".to_owned());
    }
    proof {
        assert(pieces@.map_values(|p: String| p@)[0] == pieces@[0]@);
        assert(pieces@.map_values(|p: String| p@)[1] == pieces@[1]@);
    }
    let a = parse_point(pieces[0].as_str());
    let b = parse_point(pieces[1].as_str());
    match (a, b) {
        (Some(a), Some(b)) => {
            if a.le(&b) {
                Ok(TimeInterval { from: a, to: b })
            } else {
                Ok(TimeInterval { from: b, to: a })
            }
        },
        _ => Err("One of the supplied time points are invalid".to_owned()),
    }
}

/// The '+'-separated pieces of `s` that are non-empty, in order.
pub open spec fn nonempty_pieces(ps: Seq<Seq<char>>) -> Seq<Seq<char>>
    decreases ps.len(),
{
    if ps.len() == 0 {
        Seq::empty()
    } else {
        nonempty_pieces(ps.drop_last()) + (if ps.last().len() > 0 {
            seq![ps.last()]
        } else {
            Seq::empty()
        })
    }
}

/// `nonempty_pieces` distributes over concatenation.
pub proof fn lemma_nonempty_pieces_concat(a: Seq<Seq<char>>, b: Seq<Seq<char>>)
    ensures
        nonempty_pieces(a + b) == nonempty_pieces(a) + nonempty_pieces(b),
    decreases b.len(),
{
    if b.len() == 0 {
        assert(a + b =~= a);
        assert(nonempty_pieces(a) + nonempty_pieces(b) =~= nonempty_pieces(a));
    } else {
        lemma_nonempty_pieces_concat(a, b.drop_last());
        assert((a + b).drop_last() =~= a + b.drop_last());
        assert((a + b).last() == b.last());
        assert(nonempty_pieces(a + b) =~= nonempty_pieces(a) + nonempty_pieces(b));
    }
}

/// Parse a comma-separated list of interval arguments, ignoring empty list
/// entries; the first malformed entry fails the whole list with its own
/// error.
pub fn parse_interval_vec(arg: &str) -> (r: Result<Vec<TimeInterval>, String>)
    ensures
        ({
            let entries = nonempty_pieces(spec_split(arg@, ','));
            &&& (r is Ok <==> (forall|i: int|
                0 <= i < entries.len() ==> spec_interval_of(#[trigger] entries[i]) is Some))
            &&& (r is Ok ==> r->Ok_0@.len() == entries.len() && (forall|i: int|
                0 <= i < entries.len() ==> r->Ok_0@[i] == spec_interval_of(
                    #[trigger] entries[i],
                )->Some_0))
            &&& (r is Err ==> exists|i: int|
                0 <= i < entries.len() && spec_interval_of(#[trigger] entries[i]) is None && (
                forall|j: int| 0 <= j < i ==> spec_interval_of(#[trigger] entries[j]) is Some)
                    && r->Err_0@ == spec_interval_err(entries[i]))
        }),
{
    let pieces = split_char(arg, ',');
    let ghost all_pieces = pieces@.map_values(|p: String| p@);
    let mut out: Vec<TimeInterval> = Vec::new();
    let mut k: usize = 0;
    proof {
        assert(all_pieces.take(0) =~= Seq::empty());
    }
    while k < pieces.len()
        invariant
            0 <= k <= pieces.len(),
            all_pieces == pieces@.map_values(|p: String| p@),
            all_pieces == spec_split(arg@, ','),
            out@.len() == nonempty_pieces(all_pieces.take(k as int)).len(),
            forall|i: int|
                0 <= i < out@.len() ==> spec_interval_of(
                    #[trigger] nonempty_pieces(all_pieces.take(k as int))[i],
                ) is Some && out@[i] == spec_interval_of(
                    nonempty_pieces(all_pieces.take(k as int))[i],
                )->Some_0,
        decreases pieces.len() - k,
    {
        proof {
            assert(all_pieces.take(k + 1).drop_last() =~= all_pieces.take(k as int));
            assert(all_pieces.take(k + 1).last() == all_pieces[k as int]);
            assert(all_pieces[k as int] == pieces@[k as int]@);
        }
        if pieces[k].as_str().unicode_len() > 0 {
            let ghost done = nonempty_pieces(all_pieces.take(k as int));
            match parse_interval(pieces[k].as_str()) {
                Ok(interval) => {
                    out.push(interval);
                    proof {
                        assert(nonempty_pieces(all_pieces.take(k + 1)) =~= done.push(
                            all_pieces[k as int],
                        ));
                    }
                },
                Err(e) => {
                    proof {
                        let entries = nonempty_pieces(all_pieces);
                        assert(all_pieces =~= all_pieces.take(k as int) + all_pieces.skip(
                            k as int,
                        ));
                        lemma_nonempty_pieces_concat(
                            all_pieces.take(k as int),
                            all_pieces.skip(k as int),
                        );
                        let rest = all_pieces.skip(k as int);
                        assert(rest.len() > 0);
                        assert(rest =~= seq![all_pieces[k as int]] + rest.skip(1));
                        lemma_nonempty_pieces_concat(seq![all_pieces[k as int]], rest.skip(1));
                        assert(nonempty_pieces(seq![all_pieces[k as int]]) =~= seq![
                            all_pieces[k as int],
                        ]) by {
                            assert(seq![all_pieces[k as int]].drop_last() =~= Seq::<
                                Seq<char>,
                            >::empty());
                            assert(nonempty_pieces(Seq::<Seq<char>>::empty()) =~= Seq::<
                                Seq<char>,
                            >::empty());
                            assert(seq![all_pieces[k as int]].last() == all_pieces[k as int]);
                            assert(all_pieces[k as int].len() > 0);
                        }
                        let w = done.len() as int;
                        assert(entries[w] == all_pieces[k as int]);
                        assert(forall|j: int| 0 <= j < w ==> entries[j] == done[j]);
                    }
                    return Err(e);
                },
            }
        } else {
            proof {
                assert(nonempty_pieces(all_pieces.take(k + 1)) =~= nonempty_pieces(
                    all_pieces.take(k as int),
                ));
            }
        }
        k += 1;
    }
    proof {
        assert(all_pieces.take(pieces.len() as int) =~= all_pieces);
    }
    Ok(out)
}

/// Parse the parallelism percentage: an unsigned decimal number (optionally
/// with a leading '+') of value at most 100. Reports a parse error and an
/// out-of-range error separately.
pub fn para_in_range(s: &str) -> (r: Result<u8, String>)
    ensures
        r is Ok <==> is_number_literal(s@) && spec_number_value(s@) <= 100,
        r is Ok ==> r->Ok_0 == spec_number_value(s@),
        r is Err && !is_number_literal(s@) ==> r->Err_0@ == "`"@ + s@ + "` isn't number"@,
        r is Err && is_number_literal(s@) ==> r->Err_0@
            == "parallelism percentage not in range 0-100"@,
{
    let n = s.unicode_len();
    let start: usize = if n > 0 && s.get_char(0) == '+' {
        1
    } else {
        0
    };
    let mut shape_ok = n > start;
    if shape_ok {
        shape_ok = crate::time::check_digits(s, start, n);
    }
    proof {
        if start == 1 {
            assert(s@.skip(1) =~= s@.subrange(1, n as int));
        } else {
            if n > 0 {
                assert(s@.subrange(0, n as int) =~= s@);
            }
        }
        assert(shape_ok == is_number_literal(s@));
    }
    if !shape_ok {
        let mut m = "`".to_owned();
        m.append(s);
        m.append("` isn't number");
        return Err(m);
    }
    // Accumulate the value, saturating at 101 so any over-large number is
    // treated uniformly as out of range.
    let mut acc: u32 = 0;
    let mut i = start;
    proof {
        assert(s@.subrange(start as int, start as int) =~= Seq::empty());
    }
    while i < n
        invariant
            start <= i <= n == s@.len(),
            all_digits(s@.subrange(start as int, n as int)),
            acc == vstd::math::min(spec_digits_value(s@.subrange(start as int, i as int)), 101),
        decreases n - i,
    {
        proof {
            assert(s@.subrange(start as int, i + 1).drop_last() =~= s@.subrange(
                start as int,
                i as int,
            ));
            assert(s@.subrange(start as int, i + 1).last() == s@[i as int]);
            assert(is_digit(s@[i as int])) by {
                assert(s@.subrange(start as int, n as int)[i - start] == s@[i as int]);
            }
            crate::text::lemma_digits_value_nonneg(s@.subrange(start as int, i as int));
        }
        let c = s.get_char(i);
        let d = (c as u32) - ('0' as u32);
        let big = acc * 10 + d;
        acc = if big > 101 {
            101
        } else {
            big
        };
        i += 1;
    }
    proof {
        assert(s@.subrange(start as int, n as int) =~= if start == 1 {
            s@.skip(1)
        } else {
            s@
        });
    }
    if acc > 100 {
        Err("parallelism percentage not in range 0-100".to_owned())
    } else {
        Ok(acc as u8)
    }
}

} // verus!
