//! Bytes to text: UTF-8 decoding and the line structure of file contents.

use vstd::prelude::*;
use vstd::utf8::decode_utf8;
use vstd::utf8::*;

verus! {

/// Relies on `std::str::from_utf8`: it succeeds exactly on valid UTF-8, and
/// the text it gives is the decoding of the bytes.
#[verifier::external_body]
pub(crate) fn decode_utf8_bytes(b: &[u8]) -> (r: Option<String>)
    ensures
        r.is_some() == valid_utf8(b@),
        r matches Some(s) ==> s@ == decode_utf8(b@),
{
    std::str::from_utf8(b).ok().map(|s| s.to_string())
}

pub const NEWLINE: u8 = 10;

pub const CARRIAGE_RETURN: u8 = 13;

/// How many newline bytes `b` holds.
pub open spec fn newline_count(b: Seq<u8>) -> nat
    decreases b.len(),
{
    if b.len() == 0 {
        0
    } else {
        newline_count(b.drop_last()) + if b.last() == NEWLINE {
            1nat
        } else {
            0nat
        }
    }
}

/// The pieces of `b` between newline bytes, the newlines left out: one more
/// piece than there are newlines.
pub open spec fn split_at_newlines(b: Seq<u8>) -> Seq<Seq<u8>>
    decreases b.len(),
{
    if b.len() == 0 {
        seq![Seq::empty()]
    } else {
        let rest = split_at_newlines(b.drop_last());
        if b.last() == NEWLINE {
            rest.push(Seq::empty())
        } else {
            rest.update(rest.len() - 1, rest.last().push(b.last()))
        }
    }
}

/// A line that ended in a newline loses one carriage return before it.
pub open spec fn strip_cr(p: Seq<u8>) -> Seq<u8> {
    if p.len() > 0 && p.last() == CARRIAGE_RETURN {
        p.drop_last()
    } else {
        p
    }
}

/// The lines of `b` in the sense of `str::lines`: each newline ends a line (and a
/// carriage return just before it is dropped); a last piece without a newline
/// is a line when it is not empty.
pub open spec fn text_lines(b: Seq<u8>) -> Seq<Seq<u8>> {
    let parts = split_at_newlines(b);
    let ended = parts.drop_last().map_values(|p: Seq<u8>| strip_cr(p));
    if parts.last().len() == 0 {
        ended
    } else {
        ended.push(parts.last())
    }
}

proof fn lemma_split_len(b: Seq<u8>)
    ensures
        split_at_newlines(b).len() == newline_count(b) + 1,
    decreases b.len(),
{
    if b.len() > 0 {
        lemma_split_len(b.drop_last());
    }
}

proof fn lemma_newline_count_le(b: Seq<u8>)
    ensures
        newline_count(b) <= b.len(),
        b.len() > 0 && b.last() != NEWLINE ==> newline_count(b) < b.len(),
    decreases b.len(),
{
    if b.len() > 0 {
        lemma_newline_count_le(b.drop_last());
    }
}

proof fn lemma_text_lines_len(b: Seq<u8>)
    ensures
        text_lines(b).len() == newline_count(b) + if b.len() > 0 && b.last() != NEWLINE {
            1nat
        } else {
            0nat
        },
{
    lemma_split_len(b);
    if b.len() > 0 {
        lemma_split_len(b.drop_last());
    }
}

/// How many lines `b` holds, in the sense of `str::lines`.
pub fn count_text_lines(b: &Vec<u8>) -> (r: usize)
    ensures
        r == text_lines(b@).len(),
{
    let mut n: usize = 0;
    let mut i: usize = 0;
    assert(b@.subrange(0, 0) =~= Seq::<u8>::empty());
    while i < b.len()
        invariant
            0 <= i <= b@.len(),
            n == newline_count(b@.subrange(0, i as int)),
            n <= i,
        decreases b@.len() - i,
    {
        assert(b@.subrange(0, i + 1).drop_last() =~= b@.subrange(0, i as int));
        if b[i] == NEWLINE {
            n = n + 1;
        }
        i = i + 1;
    }
    assert(b@.subrange(0, b@.len() as int) =~= b@);
    proof {
        lemma_text_lines_len(b@);
        lemma_newline_count_le(b@);
    }
    if b.len() > 0 && b[b.len() - 1] != NEWLINE {
        n + 1
    } else {
        n
    }
}

/// Position `k` of `x` lies next to a one-byte (ASCII) character, or at an
/// end, so no multi-byte character spans it.
pub open spec fn ascii_boundary(x: Seq<u8>, k: int) -> bool {
    k == 0 || k == x.len() || (0 <= k < x.len() && x[k] < 0x80) || (0 < k <= x.len() && x[k - 1] < 0x80)
}

proof fn lemma_prefix_first_scalar(x: Seq<u8>, k: int)
    requires
        x.len() > 0,
        valid_first_scalar(x),
        length_of_first_scalar(x) <= k <= x.len(),
    ensures
        valid_first_scalar(x.take(k)),
        length_of_first_scalar(x.take(k)) == length_of_first_scalar(x),
{
    let t = x.take(k);
    assert(t[0] == x[0]);
    if k >= 2 {
        assert(t[1] == x[1]);
    }
    if k >= 3 {
        assert(t[2] == x[2]);
    }
    if k >= 4 {
        assert(t[3] == x[3]);
    }
}

/// Cutting valid UTF-8 at a position next to an ASCII byte leaves two valid
/// halves.
pub proof fn lemma_split_valid(x: Seq<u8>, k: int)
    requires
        valid_utf8(x),
        0 <= k <= x.len(),
        ascii_boundary(x, k),
    ensures
        valid_utf8(x.take(k)),
        valid_utf8(x.skip(k)),
    decreases x.len(),
{
    if k == 0 {
        assert(x.take(0) =~= Seq::<u8>::empty());
        assert(x.skip(0) =~= x);
    } else {
        let l = length_of_first_scalar(x);
        let y = pop_first_scalar(x);
        assert(k >= l) by {
            if k < l {
                if k < x.len() && x[k] < 0x80 {
                    assert(is_continuation_byte(x[k]));
                } else {
                    if k - 1 >= 1 {
                        assert(is_continuation_byte(x[k - 1]));
                    }
                }
            }
        }
        assert(y.len() == x.len() - l);
        assert(ascii_boundary(y, k - l)) by {
            if k < x.len() && x[k] < 0x80 {
                assert(y[k - l] == x[k]);
            } else if k < x.len() {
                if k - l > 0 {
                    assert(y[k - l - 1] == x[k - 1]);
                }
            }
        }
        lemma_split_valid(y, k - l);
        assert(x.skip(k) =~= y.skip(k - l));
        lemma_prefix_first_scalar(x, k);
        let t = x.take(k);
        assert(pop_first_scalar(t) =~= y.take(k - l));
    }
}

/// A piece of valid UTF-8 between two ASCII boundaries is valid.
pub proof fn lemma_subrange_valid(x: Seq<u8>, i: int, j: int)
    requires
        valid_utf8(x),
        0 <= i <= j <= x.len(),
        ascii_boundary(x, i),
        ascii_boundary(x, j),
    ensures
        valid_utf8(x.subrange(i, j)),
{
    lemma_split_valid(x, i);
    let y = x.skip(i);
    assert(ascii_boundary(y, j - i)) by {
        if j < x.len() && x[j] < 0x80 {
            assert(y[j - i] == x[j]);
        } else if j < x.len() && 0 < j {
            if j - i > 0 {
                assert(y[j - i - 1] == x[j - 1]);
            }
        }
    }
    lemma_split_valid(y, j - i);
    assert(x.subrange(i, j) =~= y.take(j - i));
}

/// Piece `k` of `b` between newlines is `b[s..e]`, which starts at the
/// beginning or after a newline, and ends at the end (the last piece) or
/// before a newline.
pub open spec fn piece_span(b: Seq<u8>, k: int, s: int, e: int) -> bool {
    &&& 0 <= s <= e <= b.len()
    &&& split_at_newlines(b)[k] == b.subrange(s, e)
    &&& (s == 0 || b[s - 1] == NEWLINE)
    &&& (k == split_at_newlines(b).len() - 1 ==> e == b.len())
    &&& (k < split_at_newlines(b).len() - 1 ==> e < b.len() && b[e] == NEWLINE)
}

pub open spec fn has_span(b: Seq<u8>, k: int) -> bool {
    exists|s: int, e: int| piece_span(b, k, s, e)
}

proof fn lemma_split_pieces(b: Seq<u8>)
    ensures
        forall|k: int| 0 <= k < split_at_newlines(b).len() ==> #[trigger] has_span(b, k),
    decreases b.len(),
{
    lemma_split_len(b);
    if b.len() == 0 {
        assert(split_at_newlines(b)[0] =~= b.subrange(0, 0));
        assert(piece_span(b, 0, 0, 0));
    } else {
        let pre = b.drop_last();
        lemma_split_pieces(pre);
        lemma_split_len(pre);
        let rest = split_at_newlines(pre);
        let parts = split_at_newlines(b);
        assert forall|k: int| 0 <= k < parts.len() implies #[trigger] has_span(b, k) by {
            if b.last() == NEWLINE {
                if k == parts.len() - 1 {
                    assert(parts[k] =~= b.subrange(b.len() as int, b.len() as int));
                    assert(piece_span(b, k, b.len() as int, b.len() as int));
                } else {
                    assert(has_span(pre, k));
                    let (s, e) = choose|s: int, e: int| piece_span(pre, k, s, e);
                    assert(parts[k] == rest[k]);
                    assert(pre.subrange(s, e) =~= b.subrange(s, e));
                    if k == rest.len() - 1 {
                        assert(b[e] == b.last());
                    }
                    assert(piece_span(b, k, s, e));
                }
            } else {
                assert(has_span(pre, k) || k == parts.len() - 1);
                if k == parts.len() - 1 {
                    assert(has_span(pre, k));
                    let (s, e) = choose|s: int, e: int| piece_span(pre, k, s, e);
                    assert(parts.len() == rest.len());
                    assert(e == pre.len());
                    assert(parts[k] == rest[k].push(b.last()));
                    assert(parts[k] =~= b.subrange(s, b.len() as int));
                    assert(piece_span(b, k, s, b.len() as int));
                } else {
                    assert(has_span(pre, k));
                    let (s, e) = choose|s: int, e: int| piece_span(pre, k, s, e);
                    assert(parts[k] == rest[k]);
                    assert(pre.subrange(s, e) =~= b.subrange(s, e));
                    assert(piece_span(b, k, s, e));
                }
            }
        }
    }
}

/// Every line of valid UTF-8 text is valid UTF-8.
pub proof fn lemma_text_lines_valid(b: Seq<u8>)
    requires
        valid_utf8(b),
    ensures
        forall|k: int| 0 <= k < text_lines(b).len() ==> valid_utf8(#[trigger] text_lines(b)[k]),
{
    lemma_split_pieces(b);
    lemma_split_len(b);
    let parts = split_at_newlines(b);
    assert forall|k: int| 0 <= k < parts.len() implies valid_utf8(#[trigger] parts[k]) && (k < parts.len() - 1
        ==> valid_utf8(strip_cr(parts[k]))) by {
        assert(has_span(b, k));
        let (s, e) = choose|s: int, e: int| piece_span(b, k, s, e);
        lemma_subrange_valid(b, s, e);
        if k < parts.len() - 1 && parts[k].len() > 0 && parts[k].last() == CARRIAGE_RETURN {
            assert(b[e - 1] == CARRIAGE_RETURN);
            lemma_subrange_valid(b, s, e - 1);
            assert(strip_cr(parts[k]) =~= b.subrange(s, e - 1));
        }
    }
}

/// Splits `b` into its lines, in the sense of `str::lines`.
pub fn split_lines(b: &Vec<u8>) -> (r: Vec<Vec<u8>>)
    ensures
        r@.len() == text_lines(b@).len(),
        forall|k: int| 0 <= k < r@.len() ==> #[trigger] r@[k]@ == text_lines(b@)[k],
{
    let mut done: Vec<Vec<u8>> = Vec::new();
    let mut cur: Vec<u8> = Vec::new();
    let mut i: usize = 0;
    assert(b@.subrange(0, 0) =~= Seq::<u8>::empty());
    while i < b.len()
        invariant
            0 <= i <= b@.len(),
            ({
                let parts = split_at_newlines(b@.subrange(0, i as int));
                &&& done@.len() == parts.len() - 1
                &&& forall|k: int| 0 <= k < done@.len() ==> #[trigger] done@[k]@ == strip_cr(parts[k])
                &&& cur@ == parts.last()
            }),
        decreases b@.len() - i,
    {
        let byte = b[i];
        proof {
            let pre = b@.subrange(0, i as int);
            let next = b@.subrange(0, i + 1);
            assert(next.drop_last() =~= pre);
            assert(next.last() == byte);
            lemma_split_len(pre);
        }
        if byte == NEWLINE {
            let mut line = cur;
            let n = line.len();
            if n > 0 && line[n - 1] == CARRIAGE_RETURN {
                line.pop();
            }
            proof {
                let parts = split_at_newlines(b@.subrange(0, i as int));
                assert(line@ =~= strip_cr(parts.last()));
            }
            done.push(line);
            cur = Vec::new();
            proof {
                let parts = split_at_newlines(b@.subrange(0, i as int));
                let nparts = split_at_newlines(b@.subrange(0, i + 1));
                assert(nparts =~= parts.push(Seq::empty()));
                assert forall|k: int| 0 <= k < done@.len() implies #[trigger] done@[k]@ == strip_cr(nparts[k]) by {
                    if k < done@.len() - 1 {
                        assert(nparts[k] == parts[k]);
                    }
                }
                assert(cur@ =~= nparts.last());
            }
        } else {
            cur.push(byte);
            proof {
                let parts = split_at_newlines(b@.subrange(0, i as int));
                let nparts = split_at_newlines(b@.subrange(0, i + 1));
                assert(nparts =~= parts.update(parts.len() - 1, parts.last().push(byte)));
                assert forall|k: int| 0 <= k < done@.len() implies #[trigger] done@[k]@ == strip_cr(nparts[k]) by {
                    assert(nparts[k] == parts[k]);
                }
            }
        }
        i = i + 1;
    }
    assert(b@.subrange(0, b@.len() as int) =~= b@);
    let ghost parts = split_at_newlines(b@);
    let ghost ended = parts.drop_last().map_values(|p: Seq<u8>| strip_cr(p));
    if cur.len() > 0 {
        done.push(cur);
    }
    proof {
        assert forall|k: int| 0 <= k < done@.len() implies #[trigger] done@[k]@ == text_lines(b@)[k] by {
            if k < ended.len() {
                assert(ended[k] == strip_cr(parts[k]));
            }
        }
    }
    done
}

/// Whether `b` holds a zero byte.
pub fn contains_nul(b: &Vec<u8>) -> (r: bool)
    ensures
        r == b@.contains(0u8),
{
    let mut i: usize = 0;
    while i < b.len()
        invariant
            0 <= i <= b@.len(),
            forall|k: int| 0 <= k < i ==> b@[k] != 0u8,
        decreases b@.len() - i,
    {
        if b[i] == 0 {
            assert(b@[i as int] == 0u8);
            return true;
        }
        i = i + 1;
    }
    false
}

} // verus!
