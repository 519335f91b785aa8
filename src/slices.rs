use vstd::prelude::*;

verus! {

/// The little-endian 16-bit length stored at `b[at]`, `b[at + 1]`.
pub open spec fn prefix_at(b: Seq<u8>, at: int) -> nat {
    (b[at] as nat) + 256 * (b[at + 1] as nat)
}

/// The byte strings of a length-prefixed buffer, read from offset `at`.
///
/// Each entry is a two-byte little-endian length followed by that many
/// bytes. Reading stops at the first entry whose header does not leave at
/// least one byte after it, or whose body runs past the end of the buffer.
pub open spec fn slices_from(b: Seq<u8>, at: int) -> Seq<Seq<u8>>
    decreases b.len() - at,
{
    if at < 0 || at + 2 >= b.len() {
        Seq::empty()
    } else {
        let start = at + 2;
        let end = start + prefix_at(b, at);
        if end > b.len() {
            Seq::empty()
        } else {
            seq![b.subrange(start, end)] + slices_from(b, end)
        }
    }
}

/// The byte strings that a whole length-prefixed buffer holds.
pub open spec fn length_prefixed_slices(b: Seq<u8>) -> Seq<Seq<u8>> {
    slices_from(b, 0)
}

/// Relies on taubyte_sdk::utils::codec::bytes_slice::to, which walks the
/// buffer reading a two-byte little-endian length and then that many bytes,
/// until the next header or body would not fit.
#[verifier::external_body]
pub(crate) fn split_slices(buf: Vec<u8>) -> (r: Vec<Vec<u8>>)
    ensures
        r@.len() == length_prefixed_slices(buf@).len(),
        forall|i: int| 0 <= i < r@.len() ==> #[trigger] r@[i]@ == length_prefixed_slices(buf@)[i],
{
    taubyte_sdk::utils::codec::bytes_slice::to(buf)
}

} // verus!
