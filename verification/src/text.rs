//! Verified text utilities: splitting, replacement, decimal formatting and
//! parsing, file extensions and path joining over the library's string model
//! of paths ('/'-separated components).

use vstd::prelude::*;

verus! {

/// Pieces of `s` between occurrences of `sep`, in order; always at least one
/// piece. Defined over the last character so that a left-to-right scan can
/// maintain it.
pub open spec fn spec_split(s: Seq<char>, sep: char) -> Seq<Seq<char>>
    decreases s.len(),
{
    if s.len() == 0 {
        seq![Seq::empty()]
    } else {
        let prev = spec_split(s.drop_last(), sep);
        if s.last() == sep {
            prev.push(Seq::empty())
        } else {
            prev.update(prev.len() - 1, prev.last().push(s.last()))
        }
    }
}

/// `spec_split` always yields at least one piece.
pub proof fn lemma_split_len(s: Seq<char>, sep: char)
    ensures
        spec_split(s, sep).len() >= 1,
    decreases s.len(),
{
    if s.len() > 0 {
        lemma_split_len(s.drop_last(), sep);
    }
}

/// Split a string at every occurrence of `sep`.
pub fn split_char(s: &str, sep: char) -> (r: Vec<String>)
    ensures
        r@.len() >= 1,
        r@.map_values(|p: String| p@) == spec_split(s@, sep),
{
    let n = s.unicode_len();
    let mut pieces: Vec<String> = Vec::new();
    let mut start: usize = 0;
    let mut i: usize = 0;
    proof {
        assert(s@.take(0) =~= Seq::empty());
        assert(pieces@.map_values(|p: String| p@).push(s@.subrange(0, 0)) =~= spec_split(
            s@.take(0),
            sep,
        ));
    }
    while i < n
        invariant
            0 <= start <= i <= n == s@.len(),
            pieces@.map_values(|p: String| p@).push(s@.subrange(start as int, i as int))
                == spec_split(s@.take(i as int), sep),
        decreases n - i,
    {
        let c = s.get_char(i);
        proof {
            assert(s@.take(i + 1).drop_last() =~= s@.take(i as int));
            assert(s@.take(i + 1).last() == s@[i as int]);
        }
        if c == sep {
            let piece = s.substring_char(start, i).to_owned();
            pieces.push(piece);
            start = i + 1;
            proof {
                let prev = spec_split(s@.take(i as int), sep);
                assert(pieces@.map_values(|p: String| p@) =~= prev);
                assert(s@.subrange(start as int, i + 1) =~= Seq::empty());
                assert(pieces@.map_values(|p: String| p@).push(s@.subrange(start as int, i + 1))
                    =~= prev.push(Seq::empty()));
            }
        } else {
            proof {
                let prev = spec_split(s@.take(i as int), sep);
                let cur = s@.subrange(start as int, i as int);
                lemma_split_len(s@.take(i as int), sep);
                assert(prev.last() == cur);
                assert(s@.subrange(start as int, i + 1) =~= cur.push(s@[i as int]));
                assert(pieces@.map_values(|p: String| p@).push(s@.subrange(start as int, i + 1))
                    =~= prev.update(prev.len() - 1, prev.last().push(s@[i as int])));
            }
        }
        i += 1;
    }
    let piece = s.substring_char(start, n).to_owned();
    pieces.push(piece);
    proof {
        assert(s@.take(n as int) =~= s@);
        assert(pieces@.map_values(|p: String| p@) =~= spec_split(s@, sep));
        lemma_split_len(s@, sep);
    }
    pieces
}

/// `s` with every occurrence of the character `from` replaced by the string
/// `to`.
pub open spec fn spec_replace(s: Seq<char>, from: char, to: Seq<char>) -> Seq<char>
    decreases s.len(),
{
    if s.len() == 0 {
        Seq::empty()
    } else {
        spec_replace(s.drop_last(), from, to) + (if s.last() == from {
            to
        } else {
            seq![s.last()]
        })
    }
}

/// Replace every occurrence of the character `from` with the string `to`.
pub fn replace_char_with(s: &str, from: char, to: &str) -> (r: String)
    ensures
        r@ == spec_replace(s@, from, to@),
{
    let n = s.unicode_len();
    let mut out = String::new();
    let mut i: usize = 0;
    proof {
        assert(s@.take(0) =~= Seq::empty());
    }
    while i < n
        invariant
            0 <= i <= n == s@.len(),
            out@ == spec_replace(s@.take(i as int), from, to@),
        decreases n - i,
    {
        let c = s.get_char(i);
        proof {
            assert(s@.take(i + 1).drop_last() =~= s@.take(i as int));
            assert(s@.take(i + 1).last() == s@[i as int]);
        }
        if c == from {
            out.append(to);
        } else {
            let piece = s.substring_char(i, i + 1);
            proof {
                assert(piece@ =~= seq![s@[i as int]]);
            }
            out.append(piece);
        }
        i += 1;
    }
    proof {
        assert(s@.take(n as int) =~= s@);
    }
    out
}

/// The character for one decimal digit.
pub open spec fn digit_char(d: int) -> char {
    if d == 0 {
        '0'
    } else if d == 1 {
        '1'
    } else if d == 2 {
        '2'
    } else if d == 3 {
        '3'
    } else if d == 4 {
        '4'
    } else if d == 5 {
        '5'
    } else if d == 6 {
        '6'
    } else if d == 7 {
        '7'
    } else if d == 8 {
        '8'
    } else {
        '9'
    }
}

/// The decimal digits of `n`, most significant first, no leading zeros
/// (except for `n == 0` itself).
pub open spec fn spec_decimal(n: int) -> Seq<char>
    recommends
        n >= 0,
    decreases n,
{
    if n < 10 {
        seq![digit_char(n)]
    } else {
        spec_decimal(n / 10).push(digit_char(n % 10))
    }
}

/// `n` in decimal, left-padded with zeros to at least `width` characters.
pub open spec fn spec_padded_decimal(n: int, width: int) -> Seq<char> {
    let digits = spec_decimal(n);
    Seq::new(
        if width > digits.len() {
            (width - digits.len()) as nat
        } else {
            0nat
        },
        |i: int| '0',
    ) + digits
}

/// A decimal rendering is never empty and reaches its requested width.
pub proof fn lemma_padded_decimal_len(n: int, width: int)
    requires
        n >= 0,
        width >= 0,
    ensures
        spec_padded_decimal(n, width).len() >= width,
        spec_padded_decimal(n, width).len() >= 1,
        spec_decimal(n).len() >= 1,
{
    lemma_decimal_len(n);
}

/// A decimal rendering has at least one digit.
pub proof fn lemma_decimal_len(n: int)
    requires
        n >= 0,
    ensures
        spec_decimal(n).len() >= 1,
    decreases n,
{
    if n >= 10 {
        lemma_decimal_len(n / 10);
    }
}

/// A decimal rendering ends in a digit character.
pub proof fn lemma_padded_decimal_last(n: int, width: int)
    requires
        n >= 0,
        width >= 0,
    ensures
        spec_padded_decimal(n, width).len() >= 1,
        is_digit(spec_padded_decimal(n, width).last()),
{
    lemma_decimal_len(n);
    let digits = spec_decimal(n);
    assert(spec_padded_decimal(n, width).last() == digits.last());
    if n < 10 {
        assert(digits.last() == digit_char(n));
    } else {
        assert(digits.last() == digit_char(n % 10));
    }
}

/// One decimal digit as a string slice.
fn digit_str(d: u64) -> (r: &'static str)
    requires
        d < 10,
    ensures
        r@ =~= seq![digit_char(d as int)],
{
    proof {
        reveal_strlit("0");
        reveal_strlit("1");
        reveal_strlit("2");
        reveal_strlit("3");
        reveal_strlit("4");
        reveal_strlit("5");
        reveal_strlit("6");
        reveal_strlit("7");
        reveal_strlit("8");
        reveal_strlit("9");
    }
    match d {
        0 => "0",
        1 => "1",
        2 => "2",
        3 => "3",
        4 => "4",
        5 => "5",
        6 => "6",
        7 => "7",
        8 => "8",
        _ => "9",
    }
}

/// `n` in decimal.
pub fn decimal_string(n: u64) -> (r: String)
    ensures
        r@ == spec_decimal(n as int),
    decreases n,
{
    if n < 10 {
        digit_str(n).to_owned()
    } else {
        let mut s = decimal_string(n / 10);
        s.append(digit_str(n % 10));
        proof {
            assert(s@ =~= spec_decimal(n as int));
        }
        s
    }
}

/// `n` in decimal, left-padded with zeros to at least `width` characters.
pub fn padded_decimal_string(n: u64, width: usize) -> (r: String)
    ensures
        r@ == spec_padded_decimal(n as int, width as int),
{
    let digits = decimal_string(n);
    let dl = digits.as_str().unicode_len();
    let zeros = if width > dl {
        width - dl
    } else {
        0
    };
    let mut out = String::new();
    let mut i: usize = 0;
    while i < zeros
        invariant
            0 <= i <= zeros,
            out@ =~= Seq::new(i as nat, |j: int| '0'),
        decreases zeros - i,
    {
        out.append("0");
        proof {
            reveal_strlit("0");
            assert(out@ =~= Seq::new((i + 1) as nat, |j: int| '0'));
        }
        i += 1;
    }
    out.append(digits.as_str());
    proof {
        assert(out@ =~= spec_padded_decimal(n as int, width as int));
    }
    out
}

/// Whether `c` is a decimal digit.
pub open spec fn is_digit(c: char) -> bool {
    '0' as u32 <= c as u32 <= '9' as u32
}

/// The value of one decimal digit character.
pub open spec fn digit_val(c: char) -> int {
    c as u32 - '0' as u32
}

/// Whether every character of `s` is a decimal digit.
pub open spec fn all_digits(s: Seq<char>) -> bool {
    forall|i: int| 0 <= i < s.len() ==> is_digit(#[trigger] s[i])
}

/// The value of a digit string, most significant first.
pub open spec fn spec_digits_value(s: Seq<char>) -> int
    decreases s.len(),
{
    if s.len() == 0 {
        0
    } else {
        spec_digits_value(s.drop_last()) * 10 + digit_val(s.last())
    }
}

/// The value of an all-digit string is never negative.
pub proof fn lemma_digits_value_nonneg(s: Seq<char>)
    requires
        all_digits(s),
    ensures
        spec_digits_value(s) >= 0,
    decreases s.len(),
{
    if s.len() > 0 {
        assert(all_digits(s.drop_last())) by {
            assert(forall|i: int| 0 <= i < s.len() - 1 ==> #[trigger] s.drop_last()[i] == s[i]);
        }
        lemma_digits_value_nonneg(s.drop_last());
        assert(digit_val(s.last()) >= 0);
    }
}

/// Whether `s` is a decimal number literal as `str::parse` of an unsigned
/// integer accepts it: an optional leading '+', then one or more digits.
pub open spec fn is_number_literal(s: Seq<char>) -> bool {
    if s.len() == 0 {
        false
    } else if s[0] == '+' {
        s.len() >= 2 && all_digits(s.skip(1))
    } else {
        all_digits(s)
    }
}

/// The value of a decimal number literal.
pub open spec fn spec_number_value(s: Seq<char>) -> int
    recommends
        is_number_literal(s),
{
    if s.len() > 0 && s[0] == '+' {
        spec_digits_value(s.skip(1))
    } else {
        spec_digits_value(s)
    }
}

/// The index of the first occurrence of `c` in `s`, or -1 if `c` does not
/// occur.
pub open spec fn first_index_of(s: Seq<char>, c: char) -> int
    decreases s.len(),
{
    if s.len() == 0 {
        -1
    } else if s[0] == c {
        0
    } else {
        let r = first_index_of(s.skip(1), c);
        if r < 0 {
            -1
        } else {
            r + 1
        }
    }
}

/// What `first_index_of` means: either `c` does not occur at all, or the
/// result is the position of its first occurrence.
pub proof fn lemma_first_index_of(s: Seq<char>, c: char)
    ensures
        first_index_of(s, c) == -1 ==> (forall|i: int| 0 <= i < s.len() ==> s[i] != c),
        first_index_of(s, c) >= 0 ==> first_index_of(s, c) < s.len() && s[first_index_of(s, c)]
            == c && (forall|i: int| 0 <= i < first_index_of(s, c) ==> s[i] != c),
    decreases s.len(),
{
    if s.len() > 0 && s[0] != c {
        lemma_first_index_of(s.skip(1), c);
        assert(forall|i: int| 1 <= i < s.len() ==> s[i] == s.skip(1)[i - 1]);
    }
}

/// The index of the last occurrence of `c` in `s`, or -1 if `c` does not
/// occur.
pub open spec fn last_index_of(s: Seq<char>, c: char) -> int
    decreases s.len(),
{
    if s.len() == 0 {
        -1
    } else if s.last() == c {
        s.len() - 1
    } else {
        last_index_of(s.drop_last(), c)
    }
}

/// `last_index_of` stays within `-1 .. s.len()`.
pub proof fn lemma_last_index_bounds(s: Seq<char>, c: char)
    ensures
        -1 <= last_index_of(s, c) < s.len(),
    decreases s.len(),
{
    if s.len() > 0 && s.last() != c {
        lemma_last_index_bounds(s.drop_last(), c);
    }
}

/// Find the last occurrence of `c` in `s`.
pub fn rfind_char(s: &str, c: char) -> (r: Option<usize>)
    ensures
        r is Some <==> last_index_of(s@, c) >= 0,
        r is Some ==> r->Some_0 == last_index_of(s@, c) && r->Some_0 < s@.len(),
{
    proof {
        lemma_last_index_bounds(s@, c);
    }
    let mut j = s.unicode_len();
    proof {
        assert(s@.take(s@.len() as int) =~= s@);
    }
    while j > 0
        invariant
            0 <= j <= s@.len(),
            last_index_of(s@, c) == last_index_of(s@.take(j as int), c),
        decreases j,
    {
        let ch = s.get_char(j - 1);
        proof {
            assert(s@.take(j as int).drop_last() =~= s@.take(j - 1));
            assert(s@.take(j as int).last() == s@[j - 1]);
        }
        if ch == c {
            return Some(j - 1);
        }
        j -= 1;
    }
    proof {
        assert(s@.take(0) =~= Seq::<char>::empty());
    }
    None
}

/// The file extension of a '/'-separated path: the part of the last component
/// after its final '.', where that dot is not the component's first
/// character; `None` when the last component has no such dot.
pub open spec fn spec_extension_of(p: Seq<char>) -> Option<Seq<char>> {
    let comp_start = last_index_of(p, '/') + 1;
    let dot = last_index_of(p, '.');
    if dot > comp_start {
        Some(p.skip(dot + 1))
    } else {
        None
    }
}

/// Extract the file extension of a path, if any.
pub fn extension_of(p: &str) -> (r: Option<String>)
    ensures
        r is Some <==> spec_extension_of(p@) is Some,
        r is Some ==> r->Some_0@ == spec_extension_of(p@)->Some_0,
{
    proof {
        lemma_last_index_bounds(p@, '/');
        lemma_last_index_bounds(p@, '.');
    }
    let n = p.unicode_len();
    let comp_start = match rfind_char(p, '/') {
        Some(i) => i + 1,
        None => 0,
    };
    let dot = match rfind_char(p, '.') {
        Some(i) => i,
        None => {
            return None;
        },
    };
    if dot > comp_start {
        let ext = p.substring_char(dot + 1, n).to_owned();
        proof {
            assert(ext@ =~= p@.skip(dot + 1));
        }
        Some(ext)
    } else {
        None
    }
}

/// Join a base path and a relative component with '/': an empty base yields
/// the component itself, and a base already ending in '/' gains no second
/// separator.
pub open spec fn spec_join_path(base: Seq<char>, name: Seq<char>) -> Seq<char> {
    if base.len() == 0 {
        name
    } else if base.last() == '/' {
        base + name
    } else {
        base + seq!['/'] + name
    }
}

/// Join a base path and a relative component.
pub fn join_path(base: &str, name: &str) -> (r: String)
    ensures
        r@ == spec_join_path(base@, name@),
{
    let n = base.unicode_len();
    if n == 0 {
        return name.to_owned();
    }
    let mut out = base.to_owned();
    if base.get_char(n - 1) != '/' {
        out.append("/");
        proof {
            reveal_strlit("/");
            assert("/"@ =~= seq!['/']);
        }
    }
    out.append(name);
    proof {
        assert(out@ =~= spec_join_path(base@, name@));
    }
    out
}

/// What `str::to_lowercase` returns: a function of the characters alone.
pub uninterp spec fn lower_of(s: Seq<char>) -> Seq<char>;

/// Relies on str::to_lowercase: the lowercased text depends on the characters
/// alone, and an empty string stays empty.
#[verifier::external_body]
pub fn lowercase(s: &str) -> (r: String)
    ensures
        r@ == lower_of(s@),
        s@.len() == 0 ==> r@.len() == 0,
{
    s.to_lowercase()
}

} // verus!
