//! Small verified string utilities: comparison, substring search, splitting
//! on a separator, and decimal formatting of integers.

use vstd::prelude::*;

verus! {

/// Relies on std's `String::push`: appends the given character to the end of
/// the string.
#[verifier::external_body]
pub fn push_char(s: &mut String, c: char)
    ensures
        final(s)@ == old(s)@.push(c),
{
    s.push(c)
}

/// Character-for-character string equality.
pub fn str_eq(a: &str, b: &str) -> (r: bool)
    ensures
        r == (a@ == b@),
{
    let alen = a.unicode_len();
    let blen = b.unicode_len();
    if alen != blen {
        assert(a@.len() != b@.len());
        return false;
    }
    let mut i: usize = 0;
    while i < alen
        invariant
            alen == a@.len(),
            alen == b@.len(),
            0 <= i <= alen,
            forall|j: int| 0 <= j < i ==> a@[j] == b@[j],
        decreases alen - i,
    {
        if a.get_char(i) != b.get_char(i) {
            return false;
        }
        i += 1;
    }
    proof {
        assert(a@ =~= b@);
    }
    true
}

/// `needle` occurs in `hay` starting at position `i`.
pub open spec fn match_at(hay: Seq<char>, needle: Seq<char>, i: int) -> bool {
    0 <= i && i + needle.len() <= hay.len() && hay.subrange(i, i + needle.len()) == needle
}

/// `needle` occurs somewhere in `hay`.
pub open spec fn contains_seq(hay: Seq<char>, needle: Seq<char>) -> bool {
    exists|i: int| match_at(hay, needle, i)
}

/// Substring search by direct scan.
pub fn str_contains(hay: &str, needle: &str) -> (r: bool)
    ensures
        r == contains_seq(hay@, needle@),
{
    let hlen = hay.unicode_len();
    let nlen = needle.unicode_len();
    if nlen > hlen {
        return false;
    }
    if nlen == 0 {
        proof {
            assert(match_at(hay@, needle@, 0)) by {
                assert(hay@.subrange(0, 0) =~= needle@);
            }
        }
        return true;
    }
    let mut i: usize = 0;
    while i <= hlen - nlen
        invariant
            hlen == hay@.len(),
            nlen == needle@.len(),
            0 < nlen <= hlen,
            0 <= i <= hlen - nlen + 1,
            forall|k: int| 0 <= k < i ==> !match_at(hay@, needle@, k),
        decreases hlen - i,
    {
        let mut j: usize = 0;
        let mut hit = true;
        while j < nlen
            invariant
                hlen == hay@.len(),
                nlen == needle@.len(),
                nlen <= hlen,
                0 <= i <= hlen - nlen,
                0 <= j <= nlen,
                hit ==> forall|k: int| 0 <= k < j ==> hay@[i + k] == needle@[k],
                !hit ==> !match_at(hay@, needle@, i as int),
            decreases nlen - j,
        {
            if hay.get_char(i + j) != needle.get_char(j) {
                proof {
                    assert(hay@.subrange(i as int, i + needle@.len())[j as int] == hay@[i + j]);
                }
                hit = false;
                j = nlen;
            } else {
                j += 1;
            }
        }
        if hit {
            proof {
                assert(hay@.subrange(i as int, i + needle@.len()) =~= needle@);
                assert(match_at(hay@, needle@, i as int));
            }
            return true;
        }
        i += 1;
    }
    false
}

/// Splitting a character sequence on a separator, front first.  The result
/// always has one more field than the number of separators; splitting the
/// empty sequence gives one empty field.
pub open spec fn spec_split(s: Seq<char>, sep: char) -> Seq<Seq<char>>
    decreases s.len(),
{
    if s.len() == 0 {
        seq![Seq::<char>::empty()]
    } else if s[0] == sep {
        seq![Seq::<char>::empty()] + spec_split(s.skip(1), sep)
    } else {
        let rest = spec_split(s.skip(1), sep);
        seq![seq![s[0]] + rest[0]] + rest.skip(1)
    }
}

pub proof fn lemma_spec_split_len(s: Seq<char>, sep: char)
    ensures
        spec_split(s, sep).len() >= 1,
    decreases s.len(),
{
    if s.len() > 0 {
        lemma_spec_split_len(s.skip(1), sep);
    }
}

/// Splitting distributes over appending one character at the back: the last
/// field either grows by the character or, on a separator, a fresh empty
/// field is opened.
proof fn lemma_spec_split_push(s: Seq<char>, sep: char, c: char)
    ensures
        spec_split(s, sep).len() >= 1,
        c != sep ==> spec_split(s.push(c), sep) == spec_split(s, sep).update(
            spec_split(s, sep).len() - 1,
            spec_split(s, sep).last().push(c),
        ),
        c == sep ==> spec_split(s.push(c), sep) == spec_split(s, sep).push(Seq::<char>::empty()),
    decreases s.len(),
{
    lemma_spec_split_len(s, sep);
    if s.len() == 0 {
        assert(s.push(c)[0] == c);
        assert(s.push(c).skip(1) =~= Seq::<char>::empty());
        assert(spec_split(Seq::<char>::empty(), sep) == seq![Seq::<char>::empty()]);
        if c == sep {
            assert(spec_split(s.push(c), sep) =~~= spec_split(s, sep).push(Seq::<char>::empty()));
        } else {
            assert(seq![c] + Seq::<char>::empty() =~= seq![c]);
            assert(spec_split(s.push(c), sep) =~~= spec_split(s, sep).update(
                0,
                spec_split(s, sep).last().push(c),
            ));
        }
    } else {
        let t = s.skip(1);
        lemma_spec_split_len(t, sep);
        lemma_spec_split_push(t, sep, c);
        assert(s.push(c)[0] == s[0]);
        assert(s.push(c).skip(1) =~= t.push(c));
        let rest = spec_split(t, sep);
        let restp = spec_split(t.push(c), sep);
        if c == sep {
            if s[0] == sep {
                assert(spec_split(s.push(c), sep) =~~= spec_split(s, sep).push(
                    Seq::<char>::empty(),
                ));
            } else {
                assert(restp[0] == rest[0]);
                assert(restp.skip(1) =~~= rest.skip(1).push(Seq::<char>::empty()));
                assert(spec_split(s.push(c), sep) =~~= spec_split(s, sep).push(
                    Seq::<char>::empty(),
                ));
            }
        } else {
            if s[0] == sep {
                assert(spec_split(s.push(c), sep) =~~= spec_split(s, sep).update(
                    spec_split(s, sep).len() - 1,
                    spec_split(s, sep).last().push(c),
                ));
            } else if rest.len() == 1 {
                assert(restp[0] == rest[0].push(c));
                assert(restp.skip(1) =~~= rest.skip(1));
                assert(spec_split(s.push(c), sep) =~~= spec_split(s, sep).update(
                    spec_split(s, sep).len() - 1,
                    spec_split(s, sep).last().push(c),
                ));
            } else {
                assert(restp[0] == rest[0]);
                assert(restp.skip(1) =~~= rest.skip(1).update(
                    rest.skip(1).len() - 1,
                    rest.skip(1).last().push(c),
                ));
                assert(spec_split(s.push(c), sep) =~~= spec_split(s, sep).update(
                    spec_split(s, sep).len() - 1,
                    spec_split(s, sep).last().push(c),
                ));
            }
        }
    }
}

/// Split a string on a separator character.
pub fn str_split(s: &str, sep: char) -> (parts: Vec<String>)
    ensures
        parts.deep_view() == spec_split(s@, sep),
{
    let len = s.unicode_len();
    let mut parts: Vec<String> = Vec::new();
    let mut cur = String::new();
    let mut i: usize = 0;
    proof {
        assert(s@.take(0) =~= Seq::<char>::empty());
        assert(spec_split(s@.take(0), sep) =~~= parts.deep_view().push(cur@));
    }
    while i < len
        invariant
            len == s@.len(),
            0 <= i <= len,
            spec_split(s@.take(i as int), sep) == parts.deep_view().push(cur@),
        decreases len - i,
    {
        let ghost prev_parts = parts.deep_view();
        let ghost prev_cur = cur@;
        let c = s.get_char(i);
        proof {
            assert(s@.take(i + 1) =~= s@.take(i as int).push(s@[i as int]));
            lemma_spec_split_push(s@.take(i as int), sep, c);
        }
        if c == sep {
            parts.push(cur);
            cur = String::new();
            proof {
                assert(parts.deep_view() =~~= prev_parts.push(prev_cur));
                assert(spec_split(s@.take(i + 1), sep) =~~= parts.deep_view().push(cur@));
            }
        } else {
            push_char(&mut cur, c);
            proof {
                assert(prev_parts.push(prev_cur).update(prev_parts.len() as int, prev_cur.push(c))
                    =~~= parts.deep_view().push(cur@));
            }
        }
        i += 1;
    }
    proof {
        assert(s@.take(len as int) =~= s@);
    }
    let ghost prev_parts = parts.deep_view();
    let ghost prev_cur = cur@;
    parts.push(cur);
    proof {
        assert(parts.deep_view() =~~= prev_parts.push(prev_cur));
    }
    parts
}

/// The decimal digit character for a value below ten.
pub open spec fn digit_char(d: nat) -> char {
    if d == 0 {
        '0'
    } else if d == 1 {
        '1'
    } else if d == 2 {
        '2'
    } else if d == 3 {
        '3'
    } else if d == 4 {
        '4'
    } else if d == 5 {
        '5'
    } else if d == 6 {
        '6'
    } else if d == 7 {
        '7'
    } else if d == 8 {
        '8'
    } else {
        '9'
    }
}

/// Decimal digit sequence of a natural number, most significant first.
pub open spec fn spec_digits(n: nat) -> Seq<char>
    decreases n,
{
    if n < 10 {
        seq![digit_char(n)]
    } else {
        spec_digits(n / 10).push(digit_char(n % 10))
    }
}

/// Decimal form of a signed number: a leading minus sign for negatives.
pub open spec fn spec_i64_digits(n: int) -> Seq<char> {
    if n < 0 {
        seq!['-'] + spec_digits((-n) as nat)
    } else {
        spec_digits(n as nat)
    }
}

/// One decimal digit as a character.
pub fn digit_to_char(d: u64) -> (c: char)
    requires
        d < 10,
    ensures
        c == digit_char(d as nat),
{
    match d {
        0 => '0',
        1 => '1',
        2 => '2',
        3 => '3',
        4 => '4',
        5 => '5',
        6 => '6',
        7 => '7',
        8 => '8',
        _ => '9',
    }
}

/// Decimal rendering of an unsigned number.
pub fn u64_string(n: u64) -> (r: String)
    ensures
        r@ == spec_digits(n as nat),
    decreases n,
{
    if n < 10 {
        let mut s = String::new();
        push_char(&mut s, digit_to_char(n));
        proof {
            assert(s@ =~= spec_digits(n as nat));
        }
        s
    } else {
        let mut s = u64_string(n / 10);
        push_char(&mut s, digit_to_char(n % 10));
        s
    }
}

/// Decimal rendering of a signed number.
pub fn i64_string(n: i64) -> (r: String)
    ensures
        r@ == spec_i64_digits(n as int),
{
    if n >= 0 {
        u64_string(n as u64)
    } else {
        let mag: u64 = if n == i64::MIN {
            9223372036854775808u64
        } else {
            (-n) as u64
        };
        let mut s = String::new();
        push_char(&mut s, '-');
        let digits = u64_string(mag);
        let r = s.concat(digits.as_str());
        proof {
            assert(r@ =~= spec_i64_digits(n as int));
        }
        r
    }
}

/// A number zero-padded to two places, as the clock-style formatter writes
/// it; negative values keep their sign and are not padded further.
pub open spec fn spec_pad2(n: int) -> Seq<char> {
    if n < 0 {
        seq!['-'] + spec_digits((-n) as nat)
    } else if n < 10 {
        seq!['0', digit_char(n as nat)]
    } else {
        spec_digits(n as nat)
    }
}

/// Render a number zero-padded to two places.
pub fn pad2_string(n: i64) -> (r: String)
    ensures
        r@ == spec_pad2(n as int),
{
    if 0 <= n && n < 10 {
        let mut s = String::new();
        push_char(&mut s, '0');
        push_char(&mut s, digit_to_char(n as u64));
        proof {
            assert(s@ =~= spec_pad2(n as int));
        }
        s
    } else {
        i64_string(n)
    }
}

} // verus!
