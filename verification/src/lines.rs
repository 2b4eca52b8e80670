//! Cutting container output into lines.

use vstd::prelude::*;

verus! {

/// The newline byte.
pub const NEWLINE: u8 = 10;

/// The length of the first line of `s`: up to and including the first
/// newline, or all of `s` where it holds none.
pub open spec fn line_len(s: Seq<u8>) -> nat
    decreases s.len(),
{
    if s.len() == 0 {
        0
    } else if s[0] == NEWLINE {
        1
    } else {
        1 + line_len(s.drop_first())
    }
}

/// `s` holds no newline.
pub open spec fn no_newline(s: Seq<u8>) -> bool {
    forall|j: int| 0 <= j < s.len() ==> s[j] != NEWLINE
}

/// The lines of `s` in order; each but possibly the last ends with a newline.
pub open spec fn spec_lines(s: Seq<u8>) -> Seq<Seq<u8>>
    decreases s.len(),
{
    if s.len() == 0 {
        Seq::empty()
    } else {
        let n = line_len(s);
        proof {
            lemma_line_len_bounds(s);
        }
        seq![s.take(n as int)] + spec_lines(s.skip(n as int))
    }
}

/// All byte sequences of `ls`, joined in order.
pub open spec fn flatten_bytes(ls: Seq<Seq<u8>>) -> Seq<u8>
    decreases ls.len(),
{
    if ls.len() == 0 {
        Seq::empty()
    } else {
        ls[0] + flatten_bytes(ls.drop_first())
    }
}

pub proof fn lemma_line_len_bounds(s: Seq<u8>)
    ensures
        s.len() > 0 ==> 1 <= line_len(s) <= s.len(),
        s.len() == 0 ==> line_len(s) == 0,
    decreases s.len(),
{
    if s.len() > 0 && s[0] != NEWLINE {
        lemma_line_len_bounds(s.drop_first());
    }
}

/// The first line is the prefix up to the first newline, inclusive.
pub proof fn lemma_line_len_first_newline(s: Seq<u8>, i: int)
    requires
        0 <= i < s.len(),
        s[i] == NEWLINE,
        forall|j: int| 0 <= j < i ==> s[j] != NEWLINE,
    ensures
        line_len(s) == i + 1,
    decreases i,
{
    if i > 0 {
        let t = s.drop_first();
        assert forall|j: int| 0 <= j < i - 1 implies t[j] != NEWLINE by {
            assert(t[j] == s[j + 1]);
        }
        lemma_line_len_first_newline(t, i - 1);
    }
}

/// Without a newline, the first line is all of `s`.
pub proof fn lemma_line_len_no_newline(s: Seq<u8>)
    requires
        no_newline(s),
    ensures
        line_len(s) == s.len(),
    decreases s.len(),
{
    if s.len() > 0 {
        let t = s.drop_first();
        assert(no_newline(t)) by {
            assert forall|j: int| 0 <= j < t.len() implies t[j] != NEWLINE by {
                assert(t[j] == s[j + 1]);
            }
        }
        lemma_line_len_no_newline(t);
    }
}

/// A line without newline is the whole rest of `s`; every other line ends
/// with its only newline.
pub proof fn lemma_first_line_shape(s: Seq<u8>)
    requires
        s.len() > 0,
    ensures
        ({
            let n = line_len(s) as int;
            let line = s.take(n);
            &&& 1 <= n <= s.len()
            &&& no_newline(line) ==> n == s.len()
            &&& !no_newline(line) ==> line[n - 1] == NEWLINE && no_newline(line.take(n - 1))
        }),
    decreases s.len(),
{
    lemma_line_len_bounds(s);
    let n = line_len(s) as int;
    if s[0] == NEWLINE {
        assert(s.take(n)[0] == NEWLINE);
        assert(no_newline(s.take(n).take(0)));
    } else {
        let t = s.drop_first();
        if t.len() == 0 {
            assert(s.take(n) =~= s);
        } else {
            lemma_first_line_shape(t);
            let m = line_len(t) as int;
            assert(n == m + 1);
            assert forall|j: int| 0 <= j < n implies #[trigger] s.take(n)[j] == (if j == 0 { s[0] } else { t.take(m)[j - 1] }) by {}
            if no_newline(s.take(n)) {
                assert(no_newline(t.take(m))) by {
                    assert forall|j: int| 0 <= j < m implies t.take(m)[j] != NEWLINE by {
                        assert(s.take(n)[j + 1] == t.take(m)[j]);
                    }
                }
            } else {
                if no_newline(t.take(m)) {
                    assert(no_newline(s.take(n))) by {
                        assert forall|j: int| 0 <= j < n implies s.take(n)[j] != NEWLINE by {
                            if j > 0 {
                                assert(s.take(n)[j] == t.take(m)[j - 1]);
                            }
                        }
                    }
                }
                assert(s.take(n)[n - 1] == t.take(m)[m - 1]);
                assert(no_newline(s.take(n).take(n - 1))) by {
                    assert forall|j: int| 0 <= j < n - 1 implies #[trigger] s.take(n).take(n - 1)[j] != NEWLINE by {
                        if j > 0 {
                            assert(s.take(n)[j] == t.take(m).take(m - 1)[j - 1]);
                        }
                    }
                }
            }
        }
    }
}

/// memchr::memchr: the index of the first occurrence of `needle` in
/// `haystack`, or `None` where it does not occur.
#[verifier::external_body]
fn find_byte(needle: u8, haystack: &[u8]) -> (r: Option<usize>)
    ensures
        match r {
            Some(i) => {
                &&& i < haystack@.len()
                &&& haystack@[i as int] == needle
                &&& forall|j: int| 0 <= j < i ==> haystack@[j] != needle
            },
            None => forall|j: int| 0 <= j < haystack@.len() ==> haystack@[j] != needle,
        },
{
    memchr::memchr(needle, haystack)
}

/// The length of the first line of `data[start..]` and whether that line
/// lacks a terminating newline.
pub fn next_line(data: &[u8], start: usize) -> (r: (usize, bool))
    requires
        start < data@.len(),
    ensures
        r.0 == line_len(data@.skip(start as int)),
        r.1 == no_newline(data@.skip(start as int).take(r.0 as int)),
{
    let rest = slice_from(data, start);
    let ghost s = data@.skip(start as int);
    match find_byte(NEWLINE, rest) {
        Some(i) => {
            assert(i < rest.len());
            proof {
                lemma_line_len_first_newline(s, i as int);
                assert(s.take(i + 1)[i as int] == NEWLINE);
            }
            (i + 1, false)
        },
        None => {
            proof {
                lemma_line_len_no_newline(s);
                assert(s.take(s.len() as int) =~= s);
            }
            (rest.len(), true)
        },
    }
}

/// The suffix of `data` that starts at `start`.
fn slice_from(data: &[u8], start: usize) -> (r: &[u8])
    requires
        start <= data@.len(),
    ensures
        r@ == data@.skip(start as int),
{
    let r = &data[start..data.len()];
    assert(r@ =~= data@.skip(start as int));
    r
}

/// The bytes `data[start..start + n]`.
pub fn sub_slice(data: &[u8], start: usize, n: usize) -> (r: &[u8])
    requires
        start + n <= data.len(),
    ensures
        r@ == data@.subrange(start as int, start + n),
{
    let r = &data[start..start + n];
    assert(r@ =~= data@.subrange(start as int, start + n));
    r
}

/// The lines of `s` following the first one.
pub proof fn lemma_spec_lines_unfold(s: Seq<u8>, i: int, n: int)
    requires
        0 <= i < s.len(),
        n == line_len(s.skip(i)),
    ensures
        spec_lines(s.skip(i)) == seq![s.subrange(i, i + n)] + spec_lines(s.skip(i + n)),
        1 <= n <= s.len() - i,
{
    lemma_line_len_bounds(s.skip(i));
    assert(s.skip(i).take(n) =~= s.subrange(i, i + n));
    assert(s.skip(i).skip(n) =~= s.skip(i + n));
}

/// Joining the lines of `s` gives `s` back.
pub proof fn lemma_lines_flatten(s: Seq<u8>)
    ensures
        flatten_bytes(spec_lines(s)) == s,
    decreases s.len(),
{
    if s.len() > 0 {
        lemma_line_len_bounds(s);
        let n = line_len(s) as int;
        lemma_lines_flatten(s.skip(n));
        let ls = spec_lines(s);
        assert(ls.drop_first() =~= spec_lines(s.skip(n)));
        assert(s.take(n) + s.skip(n) =~= s);
    }
}

} // verus!
