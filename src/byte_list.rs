//! The byte-list body form: a request body written as decimal byte values
//! separated by commas, each possibly surrounded by whitespace ("104, 105").

use crate::text::{chars_of, parse_unsigned, unsigned_value};
use vstd::prelude::*;
use vstd::slice::slice_subrange;

verus! {

/// A character with the Unicode White_Space property, as `char::is_whitespace` has it.
pub open spec fn is_white(c: char) -> bool {
    let u = c as u32;
    (0x09 <= u && u <= 0x0D) || u == 0x20 || u == 0x85 || u == 0xA0 || u == 0x1680 || (0x2000 <= u
        && u <= 0x200A) || u == 0x2028 || u == 0x2029 || u == 0x202F || u == 0x205F || u == 0x3000
}

fn white(c: char) -> (r: bool)
    ensures
        r == is_white(c),
{
    let u = c as u32;
    (0x09 <= u && u <= 0x0D) || u == 0x20 || u == 0x85 || u == 0xA0 || u == 0x1680 || (0x2000 <= u
        && u <= 0x200A) || u == 0x2028 || u == 0x2029 || u == 0x202F || u == 0x205F || u == 0x3000
}

/// `s` without its leading whitespace.
pub open spec fn trim_start(s: Seq<char>) -> Seq<char>
    decreases s.len(),
{
    if s.len() > 0 && is_white(s[0]) {
        trim_start(s.drop_first())
    } else {
        s
    }
}

/// `s` without its trailing whitespace.
pub open spec fn trim_end(s: Seq<char>) -> Seq<char>
    decreases s.len(),
{
    if s.len() > 0 && is_white(s.last()) {
        trim_end(s.drop_last())
    } else {
        s
    }
}

/// `s` without whitespace at either end, as `str::trim` gives it.
pub open spec fn trim(s: Seq<char>) -> Seq<char> {
    trim_end(trim_start(s))
}

/// The pieces of `s` between commas, as `str::split(',')` gives them: one more
/// than there are commas.
pub open spec fn split_commas(s: Seq<char>) -> Seq<Seq<char>>
    decreases s.len(),
{
    if s.len() == 0 {
        seq![Seq::empty()]
    } else {
        let front = split_commas(s.drop_last());
        if s.last() == ',' {
            front.push(Seq::empty())
        } else {
            front.update(front.len() - 1, front.last().push(s.last()))
        }
    }
}

/// The byte that one piece stands for.
pub open spec fn piece_byte(piece: Seq<char>) -> Option<nat> {
    unsigned_value(trim(piece), 255)
}

/// The bytes that a byte list stands for: none for the empty text, else one per
/// piece, when every piece is a decimal number in 0..=255.
pub open spec fn byte_list(s: Seq<char>) -> Option<Seq<u8>> {
    let pieces = split_commas(s);
    if s.len() == 0 {
        Some(Seq::empty())
    } else if forall|i: int| 0 <= i < pieces.len() ==> #[trigger] piece_byte(pieces[i]) is Some {
        Some(Seq::new(pieces.len(), |i: int| piece_byte(pieces[i])->Some_0 as u8))
    } else {
        None
    }
}

proof fn lemma_split_len(s: Seq<char>)
    ensures
        split_commas(s).len() >= 1,
    decreases s.len(),
{
    if s.len() > 0 {
        lemma_split_len(s.drop_last());
    }
}

/// The pieces of `s.take(i)`: those ended by the commas before `start`, and the
/// open one from `start` to `i`.
proof fn lemma_split_step(s: Seq<char>, i: int)
    requires
        0 <= i < s.len(),
    ensures
        s.take(i + 1).drop_last() == s.take(i),
        split_commas(s.take(i + 1)) == if s[i] == ',' {
            split_commas(s.take(i)).push(Seq::empty())
        } else {
            split_commas(s.take(i)).update(
                split_commas(s.take(i)).len() - 1,
                split_commas(s.take(i)).last().push(s[i]),
            )
        },
{
    assert(s.take(i + 1).drop_last() =~= s.take(i));
}

/// Pieces that a prefix has already closed stay as they are in longer prefixes.
proof fn lemma_split_prefix(s: Seq<char>, i: int, j: int)
    requires
        0 <= i <= j <= s.len(),
    ensures
        split_commas(s.take(j)).len() >= split_commas(s.take(i)).len(),
        forall|k: int|
            0 <= k < split_commas(s.take(i)).len() - 1 ==> #[trigger] split_commas(s.take(j))[k]
                == split_commas(s.take(i))[k],
    decreases j - i,
{
    if j > i {
        lemma_split_prefix(s, i, j - 1);
        lemma_split_step(s, j - 1);
        lemma_split_len(s.take(j - 1));
    }
}

proof fn lemma_trim_start_skips(s: Seq<char>, k: int)
    requires
        0 <= k <= s.len(),
        forall|j: int| 0 <= j < k ==> is_white(#[trigger] s[j]),
    ensures
        trim_start(s) == trim_start(s.subrange(k, s.len() as int)),
    decreases k,
{
    if k > 0 {
        lemma_trim_start_skips(s.drop_first(), k - 1);
        assert(s.drop_first().subrange(k - 1, s.len() - 1) =~= s.subrange(k, s.len() as int));
    } else {
        assert(s.subrange(0, s.len() as int) =~= s);
    }
}

proof fn lemma_trim_end_skips(s: Seq<char>, k: int)
    requires
        0 <= k <= s.len(),
        forall|j: int| k <= j < s.len() ==> is_white(#[trigger] s[j]),
    ensures
        trim_end(s) == trim_end(s.subrange(0, k)),
    decreases s.len() - k,
{
    if k < s.len() {
        lemma_trim_end_skips(s.drop_last(), k);
        assert(s.drop_last().subrange(0, k) =~= s.subrange(0, k));
    } else {
        assert(s.subrange(0, k) =~= s);
    }
}

/// The bounds of `s[lo..hi]` without whitespace at either end.
pub fn trim_range(s: &[char], lo: usize, hi: usize) -> (r: (usize, usize))
    requires
        lo <= hi <= s@.len(),
    ensures
        lo <= r.0 <= r.1 <= hi,
        trim(s@.subrange(lo as int, hi as int)) == s@.subrange(r.0 as int, r.1 as int),
{
    let ghost p = s@.subrange(lo as int, hi as int);
    let mut a: usize = lo;
    while a < hi && white(s[a])
        invariant
            lo <= a <= hi <= s@.len(),
            p == s@.subrange(lo as int, hi as int),
            forall|j: int| lo <= j < a ==> is_white(#[trigger] s@[j]),
        decreases hi - a,
    {
        a = a + 1;
    }
    proof {
        assert forall|j: int| 0 <= j < a - lo implies is_white(#[trigger] p[j]) by {
            assert(p[j] == s@[lo + j]);
        }
        lemma_trim_start_skips(p, a - lo);
        let q = p.subrange(a - lo, p.len() as int);
        assert(q =~= s@.subrange(a as int, hi as int));
        if q.len() > 0 {
            assert(q[0] == s@[a as int]);
        }
        assert(trim_start(q) == q);
    }
    let mut b: usize = hi;
    while b > a && white(s[b - 1])
        invariant
            lo <= a <= b <= hi <= s@.len(),
            forall|j: int| b <= j < hi ==> is_white(#[trigger] s@[j]),
        decreases b - a,
    {
        b = b - 1;
    }
    proof {
        let q = s@.subrange(a as int, hi as int);
        assert forall|j: int| b - a <= j < q.len() implies is_white(#[trigger] q[j]) by {
            assert(q[j] == s@[a + j]);
        }
        lemma_trim_end_skips(q, b - a);
        let t = q.subrange(0, b - a);
        assert(t =~= s@.subrange(a as int, b as int));
        if t.len() > 0 {
            assert(t.last() == s@[b - 1]);
        }
        assert(trim_end(t) == t);
    }
    (a, b)
}

/// The value of the piece `s[lo..hi]`.
fn piece_value(s: &[char], lo: usize, hi: usize) -> (r: Option<u8>)
    requires
        lo <= hi <= s@.len(),
    ensures
        match piece_byte(s@.subrange(lo as int, hi as int)) {
            Some(v) => r == Some(v as u8),
            None => r is None,
        },
{
    let (a, b) = trim_range(s, lo, hi);
    match parse_unsigned(slice_subrange(s, a, b), 255) {
        Some(v) => Some(v as u8),
        None => None,
    }
}

/// Reads a byte list; `None` when a piece is not a decimal number in 0..=255.
pub fn parse_byte_list(text: &str) -> (r: Option<Vec<u8>>)
    ensures
        match byte_list(text@) {
            Some(bytes) => r is Some && r->Some_0@ == bytes,
            None => r is None,
        },
{
    let s = chars_of(text);
    if s.len() == 0 {
        return Some(Vec::new());
    }
    let ghost full = s@;
    let mut out: Vec<u8> = Vec::new();
    let mut start: usize = 0;
    let mut i: usize = 0;
    while i < s.len()
        invariant
            s@ == full,
            full == text@,
            full.len() > 0,
            start <= i <= full.len(),
            split_commas(full.take(i as int)).len() == out@.len() + 1,
            split_commas(full.take(i as int)).last() == full.subrange(start as int, i as int),
            forall|k: int|
                0 <= k < out@.len() ==> #[trigger] piece_byte(split_commas(full.take(i as int))[k])
                    == Some(out@[k] as nat),
        decreases full.len() - i,
    {
        proof {
            lemma_split_step(full, i as int);
            lemma_split_len(full.take(i as int));
        }
        if s[i] == ',' {
            match piece_value(s.as_slice(), start, i) {
                Some(v) => {
                    out.push(v);
                },
                None => {
                    proof {
                        let k = out@.len() as int;
                        assert(full[i as int] == ',');
                        assert(split_commas(full.take(i + 1)) == split_commas(full.take(i as int)).push(Seq::empty()));
                        assert(split_commas(full.take(i + 1))[k] == full.subrange(start as int, i as int));
                        lemma_split_prefix(full, i + 1, full.len() as int);
                        assert(full.take(full.len() as int) =~= full);
                        assert(split_commas(full)[k] == full.subrange(start as int, i as int));
                        assert(piece_byte(split_commas(full)[k]) is None);

                    }
                    return None;
                },
            }
            start = i + 1;
        }
        i = i + 1;
        proof {
            assert(full.subrange(start as int, i as int) =~= if full[i - 1] == ',' {
                Seq::<char>::empty()
            } else {
                full.subrange(start as int, i - 1).push(full[i - 1])
            });
        }
    }
    assert(full.take(i as int) =~= full);
    match piece_value(s.as_slice(), start, i) {
        Some(v) => {
            out.push(v);
            assert(Seq::new(split_commas(full).len(), |k: int| piece_byte(split_commas(full)[k])->Some_0 as u8) =~= out@);
            Some(out)
        },
        None => None,
    }
}

} // verus!
