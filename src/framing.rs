//! Byte-stuffed framing: each payload is sent with its zero bytes encoded
//! away (consistent overhead byte stuffing), followed by a single zero that
//! ends the frame.
use vstd::prelude::*;

verus! {

/// Longest payload that a frame carries; within it no group of non-zero
/// bytes needs a code byte of its own.
pub const MAX_PAYLOAD: usize = 253;

/// The byte that ends every frame.
pub const TERMINATOR: u8 = 0;

/// Offset of the first zero byte, or the length where there is none.
pub open spec fn first_zero(s: Seq<u8>) -> int
    decreases s.len(),
{
    if s.len() == 0 {
        0
    } else if s[0] == 0 {
        0
    } else {
        1 + first_zero(s.drop_first())
    }
}

pub open spec fn zero_free(s: Seq<u8>) -> bool {
    forall|i: int| 0 <= i < s.len() ==> #[trigger] s[i] != 0
}

/// The stuffed form of a payload: each run of non-zero bytes, up to the next
/// zero or the end, is preceded by one more than its length, and the zero
/// itself is dropped.
pub open spec fn stuffed(p: Seq<u8>) -> Seq<u8>
    decreases p.len(),
{
    let k = first_zero(p);
    if k < 0 || k >= p.len() {
        seq![(p.len() + 1) as u8] + p
    } else {
        seq![(k + 1) as u8] + p.subrange(0, k) + stuffed(p.subrange(k + 1, p.len() as int))
    }
}

/// A whole frame: the stuffed payload and the terminator.
pub open spec fn framed(p: Seq<u8>) -> Seq<u8> {
    stuffed(p) + seq![TERMINATOR]
}

/// The payload of a frame body (the bytes before the terminator), or `None`
/// where a code byte is zero or runs past the end, or a run holds a zero.
pub open spec fn unstuffed(s: Seq<u8>) -> Option<Seq<u8>>
    decreases s.len(),
{
    if s.len() == 0 {
        None
    } else {
        let c = s[0] as int;
        if c == 0 || c == 255 || s.len() < c {
            None
        } else {
            let g = s.subrange(1, c);
            if !zero_free(g) {
                None
            } else if s.len() == c {
                Some(g)
            } else {
                match unstuffed(s.subrange(c, s.len() as int)) {
                    None => None,
                    Some(r) => Some(g + seq![0u8] + r),
                }
            }
        }
    }
}

proof fn lemma_first_zero(s: Seq<u8>)
    ensures
        0 <= first_zero(s) <= s.len(),
        zero_free(s.subrange(0, first_zero(s))),
        first_zero(s) < s.len() ==> s[first_zero(s)] == 0,
    decreases s.len(),
{
    if s.len() > 0 && s[0] != 0 {
        let t = s.drop_first();
        lemma_first_zero(t);
        assert forall|i: int| 0 <= i < first_zero(s) implies #[trigger] s.subrange(
            0,
            first_zero(s),
        )[i] != 0 by {
            if i > 0 {
                assert(s[i] == t[i - 1]);
                assert(t.subrange(0, first_zero(t))[i - 1] != 0);
            }
        }
    }
}

pub proof fn lemma_first_zero_at(s: Seq<u8>, k: int)
    requires
        0 <= k <= s.len(),
        zero_free(s.subrange(0, k)),
        k < s.len() ==> s[k] == 0,
    ensures
        first_zero(s) == k,
    decreases s.len(),
{
    if s.len() > 0 && k > 0 {
        assert(s.subrange(0, k)[0] != 0);
        let t = s.drop_first();
        assert forall|i: int| 0 <= i < k - 1 implies #[trigger] t.subrange(0, k - 1)[i] != 0 by {
            assert(s.subrange(0, k)[i + 1] != 0);
        }
        lemma_first_zero_at(t, k - 1);
    }
}

/// Unstuffing a stuffed payload gives the payload back.
pub proof fn lemma_unstuff_stuffed(p: Seq<u8>)
    requires
        p.len() <= MAX_PAYLOAD,
    ensures
        unstuffed(stuffed(p)) == Some(p),
        stuffed(p).len() == p.len() + 1,
        stuffed(p)[0] != 0,
        zero_free(stuffed(p)),
    decreases p.len(),
{
    let k = first_zero(p);
    lemma_first_zero(p);
    let s = stuffed(p);
    if k >= p.len() {
        assert(s.subrange(1, p.len() as int + 1) =~= p);
        assert(zero_free(s)) by {
            assert forall|i: int| 0 <= i < s.len() implies #[trigger] s[i] != 0 by {
                if i > 0 {
                    assert(s[i] == p.subrange(0, k)[i - 1]);
                }
            }
        }
    } else {
        let g = p.subrange(0, k);
        let rest = p.subrange(k + 1, p.len() as int);
        lemma_unstuff_stuffed(rest);
        assert(s.subrange(1, k + 1) =~= g);
        assert(s.subrange(k + 1, s.len() as int) =~= stuffed(rest));
        assert(g + seq![0u8] + rest =~= p);
        assert(zero_free(s)) by {
            assert forall|i: int| 0 <= i < s.len() implies #[trigger] s[i] != 0 by {
                if 0 < i <= k {
                    assert(s[i] == g[i - 1]);
                } else if i > k {
                    assert(s[i] == stuffed(rest)[i - k - 1]);
                }
            }
        }
    }
}

/// The frame of a payload of at most [`MAX_PAYLOAD`] bytes.
pub fn frame(p: &[u8]) -> (r: Vec<u8>)
    requires
        p@.len() <= MAX_PAYLOAD,
    ensures
        r@ == framed(p@),
{
    let n = p.len();
    let mut out: Vec<u8> = Vec::new();
    let mut g: usize = 0;
    let mut done = false;
    proof {
        assert(p@.subrange(0, n as int) =~= p@);
    }
    while !done
        invariant
            n == p@.len() <= MAX_PAYLOAD,
            g <= n,
            !done ==> stuffed(p@) == out@ + stuffed(p@.subrange(g as int, n as int)),
            done ==> stuffed(p@) == out@,
        decreases n - g + (if done { 0int } else { 1int }),
    {
        let mut j: usize = g;
        while j < n && p[j] != 0
            invariant
                g <= j <= n,
                n == p@.len(),
                zero_free(p@.subrange(g as int, j as int)),
            decreases n - j,
        {
            proof {
                assert forall|i: int| 0 <= i < j + 1 - g implies #[trigger] p@.subrange(
                    g as int,
                    j + 1,
                )[i] != 0 by {
                    if i < j - g {
                        assert(p@.subrange(g as int, j + 1)[i] == p@.subrange(g as int, j as int)[i]);
                    }
                }
            }
            j += 1;
        }
        let ghost rest = p@.subrange(g as int, n as int);
        proof {
            assert(rest.subrange(0, j - g) =~= p@.subrange(g as int, j as int));
            if j < n {
                assert(rest[j - g] == p@[j as int]);
            }
            lemma_first_zero_at(rest, j - g);
        }
        let ghost base = out@;
        let code = (j - g + 1) as u8;
        out.push(code);
        let mut i: usize = g;
        while i < j
            invariant
                g <= i <= j <= n,
                n == p@.len(),
                out@ == base + seq![code] + p@.subrange(g as int, i as int),
            decreases j - i,
        {
            out.push(p[i]);
            i += 1;
            proof {
                assert(out@ =~= base + seq![code] + p@.subrange(g as int, i as int));
            }
        }
        proof {
            assert(rest.subrange(0, j - g) =~= p@.subrange(g as int, j as int));
            if j < n {
                assert(rest.subrange(j - g + 1, rest.len() as int) =~= p@.subrange(j + 1, n as int));
                assert(stuffed(rest) == seq![code] + rest.subrange(0, j - g) + stuffed(
                    rest.subrange(j - g + 1, rest.len() as int),
                ));
                assert(out@ + stuffed(p@.subrange(j + 1, n as int)) =~= base + stuffed(rest));
            } else {
                assert(rest =~= p@.subrange(g as int, j as int));
                assert(out@ =~= base + stuffed(rest));
            }
        }
        if j < n {
            g = j + 1;
        } else {
            g = n;
            done = true;
        }
    }
    out.push(TERMINATOR);
    proof {
        assert(out@ =~= framed(p@));
    }
    out
}

/// `rest`, if any, after the bytes `head`.
pub open spec fn after(head: Seq<u8>, rest: Option<Seq<u8>>) -> Option<Seq<u8>> {
    match rest {
        None => None,
        Some(r) => Some(head + r),
    }
}

/// The payload of a frame body (the bytes before its terminator), or `None`
/// where the body is malformed.
pub fn unstuff(b: &[u8]) -> (r: Option<Vec<u8>>)
    ensures
        match unstuffed(b@) {
            None => r.is_none(),
            Some(p) => r.is_some() && r.unwrap()@ == p,
        },
{
    let n = b.len();
    let mut out: Vec<u8> = Vec::new();
    let mut i: usize = 0;
    proof {
        assert(b@.subrange(0, n as int) =~= b@);
    }
    while i < n
        invariant
            n == b@.len(),
            i <= n,
            unstuffed(b@) == after(out@, unstuffed(b@.subrange(i as int, n as int))),
        decreases n - i,
    {
        let ghost s = b@.subrange(i as int, n as int);
        let c = b[i] as usize;
        proof {
            assert(s[0] == b@[i as int]);
        }
        if c == 0 || c == 255 || n - i < c {
            return None;
        }
        let mut j: usize = i + 1;
        while j < i + c
            invariant
                i + 1 <= j <= i + c <= n,
                n == b@.len(),
                s == b@.subrange(i as int, n as int),
                c as int == s[0] as int,
                c != 0 && c != 255,
                unstuffed(b@) == after(out@, unstuffed(s)),
                zero_free(b@.subrange(i + 1, j as int)),
            decreases i + c - j,
        {
            if b[j] == 0 {
                proof {
                    assert(s[j - i] == b@[j as int]);
                    assert(s.subrange(1, c as int)[j - i - 1] == s[j - i]);
                    assert(!zero_free(s.subrange(1, c as int)));
                }
                return None;
            }
            proof {
                assert forall|k: int| 0 <= k < j + 1 - (i + 1) implies #[trigger] b@.subrange(
                    i + 1,
                    j + 1,
                )[k] != 0 by {
                    if k < j - (i + 1) {
                        assert(b@.subrange(i + 1, j + 1)[k] == b@.subrange(i + 1, j as int)[k]);
                    }
                }
            }
            j += 1;
        }
        let ghost g = s.subrange(1, c as int);
        proof {
            assert(g =~= b@.subrange(i + 1, i + c));
        }
        let ghost base = out@;
        let mut k: usize = i + 1;
        while k < i + c
            invariant
                i + 1 <= k <= i + c <= n,
                n == b@.len(),
                out@ == base + b@.subrange(i + 1, k as int),
            decreases i + c - k,
        {
            out.push(b[k]);
            k += 1;
            proof {
                assert(out@ =~= base + b@.subrange(i + 1, k as int));
            }
        }
        if i + c == n {
            proof {
                assert(unstuffed(s) == Some(g));
            }
            return Some(out);
        }
        out.push(0);
        proof {
            assert(s.subrange(c as int, s.len() as int) =~= b@.subrange(i + c, n as int));
            assert(out@ =~= base + (g + seq![0u8]));
            match unstuffed(b@.subrange(i + c, n as int)) {
                None => {},
                Some(r) => {
                    assert(base + (g + seq![0u8] + r) =~= out@ + r);
                },
            }
        }
        i = i + c;
    }
    None
}

} // verus!
