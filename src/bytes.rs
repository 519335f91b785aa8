use vstd::prelude::*;

verus! {

/// The bytes of `s` in the opposite order.
pub open spec fn reversed(s: Seq<u8>) -> Seq<u8> {
    Seq::new(s.len(), |i: int| s[s.len() - 1 - i])
}

/// Returns a new buffer holding the bytes of `buffer` in reverse order.
///
/// Every serialized payload that crosses the library's boundary is stored
/// reversed, and is reversed again after it is read back.
pub fn reverse_bytes(buffer: Vec<u8>) -> (r: Vec<u8>)
    ensures
        r@ == reversed(buffer@),
{
    let n: usize = buffer.len();
    let mut out: Vec<u8> = Vec::with_capacity(n);
    let mut i: usize = 0;
    while i < n
        invariant
            n == buffer@.len(),
            i <= n,
            out@.len() == i,
            forall|j: int| 0 <= j < i ==> out@[j] == buffer@[n - 1 - j],
        decreases n - i,
    {
        out.push(buffer[n - 1 - i]);
        i = i + 1;
    }
    assert(out@ =~= reversed(buffer@));
    out
}

/// Reversing twice gives back the original bytes, and reversing keeps the
/// length.
pub proof fn lemma_reverse_involution(s: Seq<u8>)
    ensures
        reversed(reversed(s)) == s,
        reversed(s).len() == s.len(),
{
    assert(reversed(reversed(s)) =~= s);
}

} // verus!
