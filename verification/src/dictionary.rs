use vstd::prelude::*;

use lindera_dictionary::dictionary::character_definition::CharacterDefinition;
use lindera_dictionary::dictionary::metadata::Metadata;
use lindera_dictionary::dictionary::unknown_dictionary::UnknownDictionary;
use lindera_dictionary::dictionary::Dictionary;
use lindera_dictionary::error::LinderaError;

use crate::envelope::{
    envelope_payload, fits_envelope, payload_fits, raw_envelope, seals, unwrap_raw, wrap_raw,
};
use crate::failure::{caused_by, plain_failure, shown_as, Failure, FailureText};
use crate::layout::{dict_uri, DICTS, DICT_COUNT, FILES, FILE_COUNT};

verus! {

/// A dictionary in memory, as lindera holds it.
#[verifier::external_type_specification]
#[verifier::external_body]
pub struct ExDictionary(lindera_dictionary::dictionary::Dictionary);

/// The categories of characters, as lindera holds them.
#[verifier::external_type_specification]
#[verifier::external_body]
pub struct ExCharacterDefinition(
    lindera_dictionary::dictionary::character_definition::CharacterDefinition,
);

/// The costs of unknown words, as lindera holds them.
#[verifier::external_type_specification]
#[verifier::external_body]
pub struct ExUnknownDictionary(
    lindera_dictionary::dictionary::unknown_dictionary::UnknownDictionary,
);

/// What is known of a dictionary as a whole, as lindera holds it.
#[verifier::external_type_specification]
#[verifier::external_body]
pub struct ExMetadata(lindera_dictionary::dictionary::metadata::Metadata);

/// The error of lindera's loaders.
#[verifier::external_type_specification]
#[verifier::external_body]
pub struct ExLinderaError(lindera_dictionary::error::LinderaError);

/// The error of the JSON encoder.
#[verifier::external_type_specification]
#[verifier::external_body]
pub struct ExJsonError(serde_json::Error);

/// A load of `uri` has given this. What it gives depends on the data that the program was built
/// with.
pub uninterp spec fn load_gave(uri: Seq<char>, r: Result<Dictionary, LinderaError>) -> bool;

/// The field `character_definition`.
pub uninterp spec fn char_def_of(d: Dictionary) -> CharacterDefinition;

/// The field `unknown_dictionary`.
pub uninterp spec fn unk_of(d: Dictionary) -> UnknownDictionary;

/// The field `metadata`.
pub uninterp spec fn metadata_of(d: Dictionary) -> Metadata;

/// The bytes of `prefix_dictionary.da`.
pub uninterp spec fn da_bytes(d: Dictionary) -> Seq<u8>;

/// The bytes of `prefix_dictionary.vals_data`.
pub uninterp spec fn vals_bytes(d: Dictionary) -> Seq<u8>;

/// The bytes of `prefix_dictionary.words_idx_data`.
pub uninterp spec fn words_idx_bytes(d: Dictionary) -> Seq<u8>;

/// The bytes of `prefix_dictionary.words_data`.
pub uninterp spec fn words_bytes(d: Dictionary) -> Seq<u8>;

/// The bytes of `connection_cost_matrix.costs_data`.
pub uninterp spec fn costs_bytes(d: Dictionary) -> Seq<u8>;

/// The character definition has its place in an archive: no offset and no category is past 32
/// bits.
pub uninterp spec fn char_def_fits(c: CharacterDefinition) -> bool;

/// The unknown dictionary has its place in an archive: no offset is past 32 bits.
pub uninterp spec fn unk_fits(u: UnknownDictionary) -> bool;

/// What `rkyv::to_bytes` makes of a character definition.
pub uninterp spec fn char_def_archive(c: CharacterDefinition) -> Result<
    Seq<u8>,
    rkyv::rancor::Error,
>;

/// What `rkyv::to_bytes` makes of an unknown dictionary.
pub uninterp spec fn unk_archive(u: UnknownDictionary) -> Result<Seq<u8>, rkyv::rancor::Error>;

/// What `serde_json::to_string` makes of the metadata.
pub uninterp spec fn metadata_json(m: Metadata) -> Result<Seq<char>, serde_json::Error>;

/// What `CharacterDefinition::load` reads from an archive; `None` where it refuses.
pub uninterp spec fn char_def_in(archive: Seq<u8>) -> Option<CharacterDefinition>;

/// What `UnknownDictionary::load` reads from an archive; `None` where it refuses.
pub uninterp spec fn unk_in(archive: Seq<u8>) -> Option<UnknownDictionary>;

/// A read of a file as metadata by `serde_json::from_slice` has given this; `None` where it
/// refuses. Two reads of one file need not give the same value: each builds hash maps with seeds of
/// their own.
pub uninterp spec fn metadata_read(file: Seq<u8>, r: Option<Metadata>) -> bool;

/// The address is that of the embedded copy of a dictionary of the store.
pub open spec fn is_dict_uri(uri: Seq<char>) -> bool {
    exists|i: int| 0 <= i < DICT_COUNT && uri == #[trigger] dict_uri(i)
}

/// The dictionary is one that a load of `uri` has given.
pub open spec fn loaded_from(uri: Seq<char>, d: Dictionary) -> bool {
    load_gave(uri, Ok(d))
}

/// The character definition and the unknown dictionary have their place in an archive.
pub open spec fn archivable(d: Dictionary) -> bool {
    char_def_fits(char_def_of(d)) && unk_fits(unk_of(d))
}

/// `lindera::dictionary::load_dictionary` on the address of an embedded copy. Whether a copy is
/// embedded, and which, was settled when the program was built. A dictionary that lindera loads
/// has its character definition and its unknown dictionary out of archives of the same encoder,
/// so they fit into one again.
#[verifier::external_body]
fn load_dictionary(uri: &str) -> (r: Result<Dictionary, LinderaError>)
    requires
        is_dict_uri(uri@),
    ensures
        load_gave(uri@, r),
        r matches Ok(d) ==> char_def_fits(char_def_of(d)) && unk_fits(unk_of(d)),
{
    lindera::dictionary::load_dictionary(uri)
}

/// The bytes of the double array: `lindera_dictionary`'s `Data`, taken as a slice.
#[verifier::external_body]
fn double_array(d: &Dictionary) -> (r: &[u8])
    ensures
        r@ == da_bytes(*d),
{
    &d.prefix_dictionary.da.0
}

/// The bytes of the word entries: `lindera_dictionary`'s `Data`, taken as a slice.
#[verifier::external_body]
fn word_entries(d: &Dictionary) -> (r: &[u8])
    ensures
        r@ == vals_bytes(*d),
{
    &d.prefix_dictionary.vals_data
}

/// The bytes of the offsets into the word details: `lindera_dictionary`'s `Data`, taken as a slice.
#[verifier::external_body]
fn word_offsets(d: &Dictionary) -> (r: &[u8])
    ensures
        r@ == words_idx_bytes(*d),
{
    &d.prefix_dictionary.words_idx_data
}

/// The bytes of the word details: `lindera_dictionary`'s `Data`, taken as a slice.
#[verifier::external_body]
fn word_details(d: &Dictionary) -> (r: &[u8])
    ensures
        r@ == words_bytes(*d),
{
    &d.prefix_dictionary.words_data
}

/// The bytes of the connection costs: `lindera_dictionary`'s `Data`, taken as a slice.
#[verifier::external_body]
fn connection_costs(d: &Dictionary) -> (r: &[u8])
    ensures
        r@ == costs_bytes(*d),
{
    &d.connection_cost_matrix.costs_data
}

/// The character definition: the field of lindera's `Dictionary`.
#[verifier::external_body]
fn character_definition(d: &Dictionary) -> (r: &CharacterDefinition)
    ensures
        *r == char_def_of(*d),
{
    &d.character_definition
}

/// The unknown dictionary: the field of lindera's `Dictionary`.
#[verifier::external_body]
fn unknown_dictionary(d: &Dictionary) -> (r: &UnknownDictionary)
    ensures
        *r == unk_of(*d),
{
    &d.unknown_dictionary
}

/// The metadata: the field of lindera's `Dictionary`.
#[verifier::external_body]
fn metadata(d: &Dictionary) -> (r: &Metadata)
    ensures
        *r == metadata_of(*d),
{
    &d.metadata
}

/// `rkyv::to_bytes` on a character definition. The result is a function of the definition, and
/// `CharacterDefinition::load`, which calls the decoder, reads the definition back from it. The
/// encoder panics where an offset within the archive does not fit in 32 bits.
#[verifier::external_body]
fn archive_char_def(c: &CharacterDefinition) -> (r: Result<Vec<u8>, rkyv::rancor::Error>)
    requires
        char_def_fits(*c),
    ensures
        match r {
            Ok(archive) => char_def_archive(*c) == Ok::<_, rkyv::rancor::Error>(archive@),
            Err(e) => char_def_archive(*c) == Err::<Seq<u8>, _>(e),
        },
        r matches Ok(archive) ==> char_def_in(archive@) == Some(*c),
{
    rkyv::to_bytes::<rkyv::rancor::Error>(c).map(|archive| archive.to_vec())
}

/// `rkyv::to_bytes` on an unknown dictionary. The result is a function of the dictionary, and
/// `UnknownDictionary::load`, which calls the decoder, reads the dictionary back from it. The
/// encoder panics where an offset within the archive does not fit in 32 bits.
#[verifier::external_body]
fn archive_unk(u: &UnknownDictionary) -> (r: Result<Vec<u8>, rkyv::rancor::Error>)
    requires
        unk_fits(*u),
    ensures
        match r {
            Ok(archive) => unk_archive(*u) == Ok::<_, rkyv::rancor::Error>(archive@),
            Err(e) => unk_archive(*u) == Err::<Seq<u8>, _>(e),
        },
        r matches Ok(archive) ==> unk_in(archive@) == Some(*u),
{
    rkyv::to_bytes::<rkyv::rancor::Error>(u).map(|archive| archive.to_vec())
}

/// The JSON has the key under which the metadata describes a trained model.
pub open spec fn has_model(json: Seq<char>) -> bool {
    exists|before: Seq<char>, after: Seq<char>|
        json == #[trigger] (before + "\"model_info\":"@ + after)
}

/// `serde_json::to_string` on the metadata. The result is a function of the metadata, and each read
/// of it by `serde_json::from_slice` gives metadata with the same JSON, unless it describes a
/// trained model: that holds a floating-point number, which the parser may round.
#[verifier::external_body]
fn encode_metadata(m: &Metadata) -> (r: Result<String, serde_json::Error>)
    ensures
        match r {
            Ok(json) => metadata_json(*m) == Ok::<_, serde_json::Error>(json@),
            Err(e) => metadata_json(*m) == Err::<Seq<char>, _>(e),
        },
        r matches Ok(json) ==> !has_model(json@) ==> forall|read: Option<Metadata>| #[trigger]
            metadata_read(vstd::utf8::encode_utf8(json@), read) ==> (read matches Some(again)
                && metadata_json(again) == metadata_json(*m)),
{
    serde_json::to_string(m)
}

/// `CharacterDefinition::load`. The result is a function of the archive's bytes.
#[verifier::external_body]
fn load_char_def(archive: &[u8]) -> (r: Option<CharacterDefinition>)
    ensures
        r == char_def_in(archive@),
{
    CharacterDefinition::load(archive).ok()
}

/// `UnknownDictionary::load`. The result is a function of the archive's bytes.
#[verifier::external_body]
fn load_unk(archive: &[u8]) -> (r: Option<UnknownDictionary>)
    ensures
        r == unk_in(archive@),
{
    UnknownDictionary::load(archive).ok()
}

/// `serde_json::from_slice` as metadata.
#[verifier::external_body]
fn parse_metadata(file: &[u8]) -> (r: Option<Metadata>)
    ensures
        metadata_read(file@, r),
{
    serde_json::from_slice::<Metadata>(file).ok()
}

/// What the refusal of a load is called.
pub open spec fn load_refused(uri: Seq<char>, error: Seq<char>) -> FailureText {
    plain_failure("load_dictionary("@ + uri + ") failed: "@ + error)
}

/// What the refusal of a load with this error is called.
pub fn load_refusal(uri: &str, error: &LinderaError) -> (f: Failure)
    ensures
        exists|text: Seq<char>| shown_as(*error, text) && f@ == load_refused(uri@, text),
        exists|s: String| #[trigger]
            vstd::string::to_string_from_display_ensures(error, s) && f.context@
                == "load_dictionary("@ + uri@ + ") failed: "@ + s@,
        f.cause is None,
{
    let text = error.to_string();
    let mut context = "load_dictionary(".to_owned();
    context.append(uri);
    context.append(") failed: ");
    context.append(text.as_str());
    assert(shown_as(*error, text@));
    Failure::plain(context)
}

/// The failure is what comes of an error with which a load of `uri` was refused.
pub open spec fn is_load_refusal(uri: Seq<char>, f: FailureText) -> bool {
    exists|e: LinderaError, text: Seq<char>|
        #![trigger load_gave(uri, Err(e)), shown_as(e, text)]
        load_gave(uri, Err(e)) && shown_as(e, text) && f == load_refused(uri, text)
}

/// Loads the embedded copy of a dictionary of the store.
pub fn load_embedded(dict: usize) -> (r: Result<Dictionary, Failure>)
    requires
        dict < DICT_COUNT,
    ensures
        match r {
            Ok(d) => loaded_from(dict_uri(dict as int), d) && archivable(d),
            Err(f) => is_load_refusal(dict_uri(dict as int), f@),
        },
        r matches Ok(d) ==> load_gave(DICTS@[dict as int].1@, Ok(d)),
        r matches Err(f) ==> f.cause is None && exists|e: LinderaError, s: String|
            #![trigger load_gave(DICTS@[dict as int].1@, Err(e)),
                vstd::string::to_string_from_display_ensures(&e, s)]
            load_gave(DICTS@[dict as int].1@, Err(e))
                && vstd::string::to_string_from_display_ensures(&e, s) && f.context@
                == "load_dictionary("@ + DICTS@[dict as int].1@ + ") failed: "@ + s@,
{
    let uri = DICTS[dict].1;
    assert(uri@ == dict_uri(dict as int));
    match load_dictionary(uri) {
        Ok(d) => Ok(d),
        Err(e) => Err(load_refusal(uri, &e)),
    }
}

/// What a file of a dictionary's directory is to hold.
#[verifier::ext_equal]
pub enum Image {
    /// The contents.
    Bytes(Seq<u8>),
    /// The archive encoder refuses, with this error; the text says at what.
    ArchiveRefused(Seq<char>, rkyv::rancor::Error),
    /// The JSON encoder refuses, with this error.
    JsonRefused(serde_json::Error),
    /// The contents are past what an archive can hold.
    TooLarge,
}

impl Image {
    /// The failure is the one that the image's refusal is answered with: it has the encoder's error
    /// under it.
    pub open spec fn refused_as(self, f: FailureText) -> bool {
        match self {
            Image::ArchiveRefused(context, e) => caused_by(context, e, f),
            Image::JsonRefused(e) => caused_by("serde_json serialize Metadata"@, e, f),
            _ => false,
        }
    }
}

/// The image of a file whose payload goes into an envelope.
pub open spec fn enveloped(payload: Seq<u8>) -> Image {
    if !fits_envelope(payload.len()) {
        Image::TooLarge
    } else {
        match raw_envelope(payload) {
            Ok(file) => Image::Bytes(file),
            Err(e) => Image::ArchiveRefused("rkyv serialize CompressedData{Algorithm::Raw}"@, e),
        }
    }
}

/// The bytes of the ready marker: `ok` and a line feed.
pub open spec fn marker_bytes() -> Seq<u8> {
    seq![111u8, 107u8, 10u8]
}

/// The number of files whose contents stand in an envelope: they are the first ones.
pub const ENVELOPE_COUNT: usize = 7;

/// The component that goes into the envelope of file `i`: one of the five byte tables, or the
/// archive of the character definition or of the unknown dictionary.
pub open spec fn component(d: Dictionary, i: int) -> Result<Seq<u8>, rkyv::rancor::Error> {
    if i == 0 {
        Ok(da_bytes(d))
    } else if i == 1 {
        Ok(vals_bytes(d))
    } else if i == 2 {
        Ok(words_idx_bytes(d))
    } else if i == 3 {
        Ok(words_bytes(d))
    } else if i == 4 {
        Ok(costs_bytes(d))
    } else if i == 5 {
        char_def_archive(char_def_of(d))
    } else {
        unk_archive(unk_of(d))
    }
}

/// What the refusal to make an archive of a component is called.
pub open spec fn archive_refused(i: int) -> Seq<char> {
    if i == 5 {
        "rkyv serialize CharacterDefinition"@
    } else {
        "rkyv serialize UnknownDictionary"@
    }
}

/// What each file of a dictionary's directory is to hold: a component in its envelope, the
/// metadata as JSON, or the marker.
pub open spec fn image(d: Dictionary, i: int) -> Image {
    if i < ENVELOPE_COUNT {
        match component(d, i) {
            Ok(payload) => enveloped(payload),
            Err(e) => Image::ArchiveRefused(archive_refused(i), e),
        }
    } else if i == ENVELOPE_COUNT {
        match metadata_json(metadata_of(d)) {
            Ok(json) => Image::Bytes(vstd::utf8::encode_utf8(json)),
            Err(e) => Image::JsonRefused(e),
        }
    } else {
        Image::Bytes(marker_bytes())
    }
}

/// The character definition that lindera's loader finds in a file.
pub open spec fn char_def_file(file: Seq<u8>) -> Option<CharacterDefinition> {
    match envelope_payload(file) {
        Some(archive) => char_def_in(archive),
        None => None,
    }
}

/// The unknown dictionary that lindera's loader finds in a file.
pub open spec fn unk_file(file: Seq<u8>) -> Option<UnknownDictionary> {
    match envelope_payload(file) {
        Some(archive) => unk_in(archive),
        None => None,
    }
}

/// Lindera's loaders find in file `i`, when it holds `bytes`, what `d` holds. Those that open the
/// envelope of a byte table take out the table, and those that map the file as it is find the table
/// at its start. From the other files they read the character definition and the unknown dictionary
/// of `d`, and each time metadata with the same JSON, unless it describes a trained model.
pub open spec fn reads_back(d: Dictionary, i: int, bytes: Seq<u8>) -> bool {
    &&& i < ENVELOPE_COUNT ==> (component(d, i) matches Ok(payload) && seals(bytes, payload))
    &&& i == 5 ==> char_def_file(bytes) == Some(char_def_of(d))
    &&& i == 6 ==> unk_file(bytes) == Some(unk_of(d))
    &&& i == 7 ==> {
        &&& metadata_json(metadata_of(d)) matches Ok(json)
        &&& !has_model(json) ==> forall|read: Option<Metadata>| #[trigger]
            metadata_read(bytes, read) ==> (read matches Some(again) && metadata_json(again)
                == metadata_json(metadata_of(d)))
    }
}

/// The contents of a file of a dictionary's directory.
pub enum Contents {
    Bytes(Vec<u8>),
    Refused(Failure),
    TooLarge,
}

impl Contents {
    /// The contents are those of `image`; a refusal is answered with its failure.
    pub open spec fn matches_image(self, image: Image) -> bool {
        match self {
            Contents::Bytes(bytes) => image == Image::Bytes(bytes@),
            Contents::Refused(f) => image.refused_as(f@),
            Contents::TooLarge => image == Image::TooLarge,
        }
    }
}

/// The contents of a file whose payload goes into an envelope.
pub fn wrapped(payload: &[u8]) -> (c: Contents)
    ensures
        c.matches_image(enveloped(payload@)),
        c matches Contents::Bytes(file) ==> seals(file@, payload@),
        c is TooLarge <==> payload@.len() > 0x7fff_fffc || payload@.len() + 32 > isize::MAX,
        payload@.len() <= 0x7fff_fffc && payload@.len() + 32 <= isize::MAX ==> (c is Bytes
            <==> raw_envelope(payload@) is Ok),
{
    if !payload_fits(payload.len()) {
        return Contents::TooLarge;
    }
    match wrap_raw(payload) {
        Ok(file) => Contents::Bytes(file),
        Err(f) => Contents::Refused(f),
    }
}

/// The contents for an archive that was refused.
fn refused(context: &str, e: rkyv::rancor::Error) -> (c: Contents)
    ensures
        c.matches_image(Image::ArchiveRefused(context@, e)),
{
    Contents::Refused(Failure::caused(context.to_owned(), e.to_string()))
}

/// The contents of a file of the directory of dictionary `d`.
pub fn file_contents(d: &Dictionary, i: usize) -> (c: Contents)
    requires
        archivable(*d),
        i < FILE_COUNT,
    ensures
        c.matches_image(image(*d, i as int)),
        c matches Contents::Bytes(bytes) ==> reads_back(*d, i as int, bytes@),
        i < 7 ==> (component(*d, i as int) matches Ok(payload) ==> {
            &&& c is TooLarge <==> payload.len() > 0x7fff_fffc || payload.len() + 32 > isize::MAX
            &&& payload.len() <= 0x7fff_fffc && payload.len() + 32 <= isize::MAX && raw_envelope(
                payload,
            ) is Ok ==> (c matches Contents::Bytes(bytes) && seals(bytes@, payload))
        }),
        i < 7 && component(*d, i as int) is Err ==> c is Refused,
        i == 7 ==> (c is Bytes <==> metadata_json(metadata_of(*d)) is Ok) && !(c is TooLarge),
        i == 8 ==> c is Bytes,
{
    if i == 0 {
        wrapped(double_array(d))
    } else if i == 1 {
        wrapped(word_entries(d))
    } else if i == 2 {
        wrapped(word_offsets(d))
    } else if i == 3 {
        wrapped(word_details(d))
    } else if i == 4 {
        wrapped(connection_costs(d))
    } else if i == 5 {
        match archive_char_def(character_definition(d)) {
            Ok(archive) => wrapped(archive.as_slice()),
            Err(e) => refused("rkyv serialize CharacterDefinition", e),
        }
    } else if i == 6 {
        match archive_unk(unknown_dictionary(d)) {
            Ok(archive) => wrapped(archive.as_slice()),
            Err(e) => refused("rkyv serialize UnknownDictionary", e),
        }
    } else if i == 7 {
        match encode_metadata(metadata(d)) {
            Ok(json) => Contents::Bytes(json.as_str().as_bytes_vec()),
            Err(e) => {
                let context = "serde_json serialize Metadata".to_owned();
                Contents::Refused(Failure::caused(context, e.to_string()))
            },
        }
    } else {
        let marker: Vec<u8> = vec![111u8, 107u8, 10u8];
        assert(marker@ =~= marker_bytes());
        Contents::Bytes(marker)
    }
}

/// Reads the character definition from a file as [`file_contents`] gives it.
pub fn read_char_def(file: &[u8]) -> (r: Option<CharacterDefinition>)
    ensures
        r == char_def_file(file@),
{
    match unwrap_raw(file) {
        Some(archive) => load_char_def(archive.as_slice()),
        None => None,
    }
}

/// Reads the unknown dictionary from a file as [`file_contents`] gives it.
pub fn read_unk(file: &[u8]) -> (r: Option<UnknownDictionary>)
    ensures
        r == unk_file(file@),
{
    match unwrap_raw(file) {
        Some(archive) => load_unk(archive.as_slice()),
        None => None,
    }
}

/// Reads the metadata from a file as [`file_contents`] gives it.
pub fn read_metadata(file: &[u8]) -> (r: Option<Metadata>)
    ensures
        metadata_read(file@, r),
{
    parse_metadata(file)
}

/// A component that fits an archive, and of which the encoder makes one, is written: no smaller
/// bound keeps it from disk. It is past what an archive can hold exactly where it is longer than a
/// 32-bit offset reaches, or than the address space.
pub proof fn law_components_that_fit_are_written(d: Dictionary, i: int, payload: Seq<u8>)
    requires
        0 <= i < 7,
        component(d, i) == Ok::<_, rkyv::rancor::Error>(payload),
    ensures
        image(d, i) is TooLarge <==> payload.len() > 0x7fff_fffc || payload.len() + 32 > isize::MAX,
        payload.len() <= 0x7fff_fffc && payload.len() + 32 <= isize::MAX ==> (raw_envelope(
            payload,
        ) matches Ok(file) ==> image(d, i) == Image::Bytes(file)),
        image(d, i) matches Image::Bytes(bytes) ==> raw_envelope(payload) == Ok::<
            _,
            rkyv::rancor::Error,
        >(bytes),
{
}

/// Each component has its file: the double array, the word entries, their offsets, the word
/// details, the connection costs, and the archives of the character definition and of the unknown
/// dictionary.
pub proof fn law_components_have_their_files(d: Dictionary)
    ensures
        component(d, 0) == Ok::<_, rkyv::rancor::Error>(da_bytes(d)),
        component(d, 1) == Ok::<_, rkyv::rancor::Error>(vals_bytes(d)),
        component(d, 2) == Ok::<_, rkyv::rancor::Error>(words_idx_bytes(d)),
        component(d, 3) == Ok::<_, rkyv::rancor::Error>(words_bytes(d)),
        component(d, 4) == Ok::<_, rkyv::rancor::Error>(costs_bytes(d)),
        component(d, 5) == char_def_archive(char_def_of(d)),
        component(d, 6) == unk_archive(unk_of(d)),
        FILES@[0]@ == "dict.da"@,
        FILES@[1]@ == "dict.vals"@,
        FILES@[2]@ == "dict.wordsidx"@,
        FILES@[3]@ == "dict.words"@,
        FILES@[4]@ == "matrix.mtx"@,
        FILES@[5]@ == "char_def.bin"@,
        FILES@[6]@ == "unk.bin"@,
        FILES@[7]@ == "metadata.json"@,
        FILES@[8]@ == ".materialized"@,
{
}

/// The metadata is written as the JSON that the encoder makes of it, whatever its length, and the
/// marker holds `ok` and a line feed.
pub proof fn law_metadata_and_marker_are_written(d: Dictionary)
    ensures
        metadata_json(metadata_of(d)) matches Ok(json) ==> image(d, 7) == Image::Bytes(
            vstd::utf8::encode_utf8(json),
        ),
        image(d, 8) matches Image::Bytes(bytes) && bytes.len() == 3 && bytes[0] == 'o' as u8
            && bytes[1] == 'k' as u8 && bytes[2] == 10,
{
}

/// What an encoder refuses is named, with the encoder's error under it.
pub proof fn law_encoder_refusals_are_named(d: Dictionary, f: FailureText)
    ensures
        char_def_archive(char_def_of(d)) matches Err(e) ==> image(d, 5).refused_as(f) ==> {
            &&& f.context == "rkyv serialize CharacterDefinition"@
            &&& f.cause matches Some(text) && shown_as(e, text)
        },
        unk_archive(unk_of(d)) matches Err(e) ==> image(d, 6).refused_as(f) ==> {
            &&& f.context == "rkyv serialize UnknownDictionary"@
            &&& f.cause matches Some(text) && shown_as(e, text)
        },
        metadata_json(metadata_of(d)) matches Err(e) ==> image(d, 7).refused_as(f) ==> {
            &&& f.context == "serde_json serialize Metadata"@
            &&& f.cause matches Some(text) && shown_as(e, text)
        },
        forall|i: int, payload: Seq<u8>|
            0 <= i < 7 && #[trigger] component(d, i) == Ok::<_, rkyv::rancor::Error>(payload)
                && #[trigger] fits_envelope(payload.len()) && image(d, i).refused_as(f) ==> {
                &&& raw_envelope(payload) matches Err(e)
                &&& f.context == "rkyv serialize CompressedData{Algorithm::Raw}"@
                &&& f.cause matches Some(text) && shown_as(e, text)
            },
{
}

/// The refusal of a load names the address and carries the error's text, and so tells errors with
/// different texts apart.
pub proof fn law_load_refusals_are_told_apart(uri: Seq<char>, a: Seq<char>, b: Seq<char>)
    ensures
        load_refused(uri, a).context == "load_dictionary("@ + uri + ") failed: "@ + a,
        load_refused(uri, a).cause is None,
        a != b ==> load_refused(uri, a) != load_refused(uri, b),
{
    let head = "load_dictionary("@ + uri + ") failed: "@;
    if load_refused(uri, a) == load_refused(uri, b) {
        assert((head + a).skip(head.len() as int) =~= a);
        assert((head + b).skip(head.len() as int) =~= b);
    }
}

} // verus!
