use vstd::prelude::*;
use encoding::all::WINDOWS_31J;
use encoding::{DecoderTrap, Encoding};
use crate::catalog::RegionMap;
use crate::load::{lines_of, load_regions, load_spec};
use crate::region::RegionType;
use crate::text::chars_of;

verus! {

/// The text that `b` encodes in Windows-31J, the Shift_JIS superset of the upstream
/// lists; `None` where `b` holds a sequence that is not valid in it.
pub uninterp spec fn windows_31j_text(b: Seq<u8>) -> Option<Seq<char>>;

/// Relies on `encoding::all::WINDOWS_31J`'s `Encoding::decode` with `DecoderTrap::Strict`:
/// the decoded text, or the decoder's message where a byte sequence is invalid.
#[verifier::external_body]
fn decode_windows_31j(b: &[u8]) -> (r: Result<String, String>)
    ensures
        r is Ok <==> windows_31j_text(b@) is Some,
        r matches Ok(s) ==> windows_31j_text(b@) == Some(s@),
{
    WINDOWS_31J.decode(b, DecoderTrap::Strict).map_err(|e| e.into_owned())
}

/// Decodes one upstream list and adds the region of each matching line to `map`, in
/// order, with the grammar of type `t`. On invalid bytes `map` is left as it was.
pub fn load_encoded(map: &mut RegionMap, bytes: &[u8], t: RegionType) -> (r: Result<(), String>)
    requires
        old(map).wf(),
    ensures
        final(map).wf(),
        r is Ok <==> windows_31j_text(bytes@) is Some,
        r is Ok ==> final(map).contents() == load_spec(
            old(map).contents(),
            lines_of(windows_31j_text(bytes@)->0),
            t,
        ),
        r is Err ==> *final(map) == *old(map),
{
    match decode_windows_31j(bytes) {
        Ok(text) => {
            load_regions(map, &chars_of(text.as_str()), t);
            Ok(())
        },
        Err(e) => Err(e),
    }
}

} // verus!
