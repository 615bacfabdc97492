use vstd::prelude::*;

use lindera_dictionary::decompress::{decompress, Algorithm, CompressedData};

use crate::failure::{caused_by, Failure};

verus! {

/// The error of the archive encoder.
#[verifier::external_type_specification]
#[verifier::external_body]
pub struct ExArchiveError(rkyv::rancor::Error);

/// How the bytes in an envelope are compressed.
#[derive(Clone, Copy, PartialEq, Eq, Structural, Debug)]
pub enum Compression {
    Deflate,
    Zlib,
    Gzip,
    /// Not at all.
    Raw,
}

/// What an envelope holds: bytes, and how they are compressed.
pub struct Sealed {
    pub compression: Compression,
    pub data: Vec<u8>,
}

impl View for Sealed {
    type V = (Compression, Seq<u8>);

    open spec fn view(&self) -> (Compression, Seq<u8>) {
        (self.compression, self.data@)
    }
}

/// What `rkyv::to_bytes` makes of a `CompressedData` with the algorithm `Raw` over the given bytes.
pub uninterp spec fn raw_envelope(payload: Seq<u8>) -> Result<Seq<u8>, rkyv::rancor::Error>;

/// The `CompressedData` that `rkyv::from_bytes` finds in a file, as its algorithm and its bytes;
/// `None` where it finds none.
pub uninterp spec fn sealed_in(file: Seq<u8>) -> Option<(Compression, Seq<u8>)>;

/// The bytes that lindera's loaders take out of a file whose contents stand in an envelope
/// uncompressed; `None` where it is no such file.
pub open spec fn envelope_payload(file: Seq<u8>) -> Option<Seq<u8>> {
    match sealed_in(file) {
        Some((Compression::Raw, data)) => Some(data),
        _ => None,
    }
}

/// The file is an envelope in which the payload stands uncompressed, and starts with the payload.
pub open spec fn seals(file: Seq<u8>, payload: Seq<u8>) -> bool {
    &&& sealed_in(file) == Some((Compression::Raw, payload))
    &&& payload.is_prefix_of(file)
}

/// Whether an archive can hold a payload of `n` bytes: the offset from the archive's root back to
/// the payload is a 32-bit number, and the archive's buffer stays within the address space.
pub open spec fn fits_envelope(n: nat) -> bool {
    n <= 0x7fff_fffc && n + 32 <= isize::MAX
}

/// `rkyv::to_bytes` on `CompressedData::new(Algorithm::Raw, ..)`. The result is a function of the
/// payload. The encoder writes the payload first, and its decoder gives back what was encoded. Past
/// [`fits_envelope`] the encoder panics.
#[verifier::external_body]
fn encode_raw(payload: &[u8]) -> (r: Result<Vec<u8>, rkyv::rancor::Error>)
    requires
        fits_envelope(payload@.len()),
    ensures
        match r {
            Ok(file) => raw_envelope(payload@) == Ok::<_, rkyv::rancor::Error>(file@),
            Err(e) => raw_envelope(payload@) == Err::<Seq<u8>, _>(e),
        },
        r matches Ok(file) ==> seals(file@, payload@),
{
    let data = CompressedData::new(Algorithm::Raw, payload.to_vec());
    rkyv::to_bytes::<rkyv::rancor::Error>(&data).map(|archive| archive.to_vec())
}

/// `rkyv::from_bytes` as a `CompressedData`, on an aligned copy as lindera's loaders make it. The
/// result is a function of the file's bytes.
#[verifier::external_body]
fn decode(file: &[u8]) -> (r: Option<Sealed>)
    ensures
        match r {
            Some(sealed) => sealed_in(file@) == Some(sealed@),
            None => sealed_in(file@) is None,
        },
{
    let mut aligned = rkyv::util::AlignedVec::<16>::new();
    aligned.extend_from_slice(file);
    let sealed = rkyv::from_bytes::<CompressedData, rkyv::rancor::Error>(&aligned).ok()?;
    let compression = match sealed.algorithm {
        Algorithm::Deflate => Compression::Deflate,
        Algorithm::Zlib => Compression::Zlib,
        Algorithm::Gzip => Compression::Gzip,
        Algorithm::Raw => Compression::Raw,
    };
    Some(Sealed { compression, data: sealed.data })
}

/// `lindera_dictionary::decompress::decompress` on bytes that are not compressed: it hands them on
/// as they are.
#[verifier::external_body]
fn expand_raw(data: Vec<u8>) -> (r: Option<Vec<u8>>)
    ensures
        r is Some,
        r->Some_0@ == data@,
{
    decompress(CompressedData::new(Algorithm::Raw, data)).ok()
}

/// Whether an archive can hold a payload of `n` bytes.
pub fn payload_fits(n: usize) -> (fits: bool)
    ensures
        fits == fits_envelope(n as nat),
        fits <==> n <= 0x7fff_fffc && n + 32 <= isize::MAX,
{
    n <= 0x7fff_fffc && n <= (isize::MAX as usize) - 32
}

/// Puts bytes as they are, uncompressed, into the envelope in which lindera's loaders expect the
/// contents of a dictionary file.
pub fn wrap_raw(payload: &[u8]) -> (r: Result<Vec<u8>, Failure>)
    requires
        fits_envelope(payload@.len()),
    ensures
        match raw_envelope(payload@) {
            Ok(envelope) => r matches Ok(file) && file@ == envelope && seals(file@, payload@),
            Err(e) => r matches Err(f) && caused_by(
                "rkyv serialize CompressedData{Algorithm::Raw}"@,
                e,
                f@,
            ),
        },
        r is Ok <==> raw_envelope(payload@) is Ok,
        r matches Err(f) ==> (raw_envelope(payload@) matches Err(e) && exists|s: String| #[trigger]
            vstd::string::to_string_from_display_ensures(&e, s) && f.cause is Some && f.cause->Some_0@
                == s@),
        r matches Err(f) ==> f.context@ == "rkyv serialize CompressedData{Algorithm::Raw}"@,
        r matches Ok(file) ==> sealed_in(file@) == Some((Compression::Raw, payload@)),
        r matches Ok(file) ==> payload@.is_prefix_of(file@),
{
    match encode_raw(payload) {
        Ok(file) => Ok(file),
        Err(e) => {
            let context = "rkyv serialize CompressedData{Algorithm::Raw}".to_owned();
            Err(Failure::caused(context, e.to_string()))
        },
    }
}

/// Takes the contents out of the envelope of a dictionary file.
pub fn unwrap_raw(file: &[u8]) -> (r: Option<Vec<u8>>)
    ensures
        match envelope_payload(file@) {
            Some(payload) => r matches Some(bytes) && bytes@ == payload,
            None => r is None,
        },
{
    match decode(file) {
        Some(sealed) => {
            if sealed.compression == Compression::Raw {
                expand_raw(sealed.data)
            } else {
                None
            }
        },
        None => None,
    }
}

/// What goes into an envelope comes out of it, and envelopes tell their payloads apart: of two
/// files, each of which holds a payload in the way that [`wrap_raw`] puts it there, the payloads
/// come back, and the files differ where the payloads do.
pub proof fn law_envelopes_keep_payloads(
    x: Seq<u8>,
    y: Seq<u8>,
    file_of_x: Seq<u8>,
    file_of_y: Seq<u8>,
)
    requires
        seals(file_of_x, x),
        seals(file_of_y, y),
    ensures
        envelope_payload(file_of_x) == Some(x),
        envelope_payload(file_of_y) == Some(y),
        x != y ==> file_of_x != file_of_y,
{
}

/// A payload fits an archive up to the reach of a 32-bit offset, and no smaller bound holds.
pub proof fn law_payloads_fit_up_to_the_offset(n: nat)
    ensures
        n <= 0x7fff_fffc && n + 32 <= isize::MAX ==> fits_envelope(n),
        n > 0x7fff_fffc ==> !fits_envelope(n),
        n + 32 > isize::MAX ==> !fits_envelope(n),
{
}

} // verus!
