//! What a dictionary that was written to disk is found to hold when it is loaded from there.

use vstd::prelude::*;

use lindera_dictionary::dictionary::metadata::Metadata;
use lindera_dictionary::dictionary::Dictionary;

use crate::dictionary::{
    char_def_file, char_def_of, costs_bytes, da_bytes, has_model, loaded_from, metadata_json,
    metadata_of, metadata_read, unk_file, unk_of, vals_bytes, words_bytes, words_idx_bytes,
};
use crate::envelope::envelope_payload;
use crate::failure::FailureText;
use crate::laws::ensure::{
    is_ensure_run, law_finished_is_ready, law_sound_store_stays_sound, sound, EnsurePoint, Store,
};
use crate::laws::materialize::{
    dict_complete, file_complete, holds_dict, is_materialize_run,
    law_finished_holds_what_was_loaded, presence_of, MaterializePoint,
};
use crate::laws::write::Dir;
use crate::layout::{
    dict_name, dict_uri, file_name, path_text, CHAR_DEF_FILE, DA_FILE, DICT_COUNT, MATRIX_FILE,
    METADATA_FILE, UNK_FILE, VALS_FILE, WORDS_FILE, WORDS_IDX_FILE,
};
use crate::load::{law_only_complete_dictionaries_are_mapped, load_answer, MapRequestText};

verus! {

/// The table is what a loader finds in the file: it stands at the start of the file, for one that
/// maps the file as it is, and in the envelope, for one that opens it.
pub open spec fn found_in(file: Seq<u8>, table: Seq<u8>) -> bool {
    &&& table.is_prefix_of(file)
    &&& envelope_payload(file) == Some(table)
}

/// Lindera's loaders find in the directory what the dictionary `d` holds: its byte tables, its
/// character definition, its unknown dictionary, and at each read metadata with the same JSON.
/// Metadata that describes a trained model is left out.
pub open spec fn loads_back(dir: Dir, d: Dictionary) -> bool {
    &&& found_in(dir[DA_FILE@], da_bytes(d))
    &&& found_in(dir[VALS_FILE@], vals_bytes(d))
    &&& found_in(dir[WORDS_IDX_FILE@], words_idx_bytes(d))
    &&& found_in(dir[WORDS_FILE@], words_bytes(d))
    &&& found_in(dir[MATRIX_FILE@], costs_bytes(d))
    &&& char_def_file(dir[CHAR_DEF_FILE@]) == Some(char_def_of(d))
    &&& unk_file(dir[UNK_FILE@]) == Some(unk_of(d))
    &&& metadata_json(metadata_of(d)) matches Ok(json)
    &&& !has_model(json) ==> forall|read: Option<Metadata>| #[trigger]
        metadata_read(dir[METADATA_FILE@], read) ==> (read matches Some(again) && metadata_json(
            again,
        ) == metadata_json(metadata_of(d)))
}

/// A directory that holds the files of a dictionary loads back as it.
proof fn lemma_held_loads_back(dir: Dir, d: Dictionary)
    requires
        holds_dict(dir, d),
    ensures
        loads_back(dir, d),
{
    assert(file_complete(dir, d, 0));
    assert(file_complete(dir, d, 1));
    assert(file_complete(dir, d, 2));
    assert(file_complete(dir, d, 3));
    assert(file_complete(dir, d, 4));
    assert(file_complete(dir, d, 5));
    assert(file_complete(dir, d, 6));
    assert(file_complete(dir, d, 7));
    assert(file_name(0) == DA_FILE@);
    assert(file_name(1) == VALS_FILE@);
    assert(file_name(2) == WORDS_IDX_FILE@);
    assert(file_name(3) == WORDS_FILE@);
    assert(file_name(4) == MATRIX_FILE@);
    assert(file_name(5) == CHAR_DEF_FILE@);
    assert(file_name(6) == UNK_FILE@);
    assert(file_name(7) == METADATA_FILE@);
}

/// Nothing of a dictionary is lost on the way to disk and back. Where a materialization has loaded
/// the dictionary `d` and finishes, from whatever directory it started, lindera's loaders find in
/// the directory what `d` holds.
pub proof fn law_materialized_loads_back(
    run: Seq<MaterializePoint>,
    dict: int,
    path: Seq<char>,
    start: Dir,
    d: Dictionary,
    i: int,
    k: int,
)
    requires
        is_materialize_run(run, dict, path, start),
        0 <= i <= k < run.len(),
        run[i].state.dictionary == Some(d),
        run[k].asked is Finished,
    ensures
        loads_back(run[k].dir, d),
{
    law_finished_holds_what_was_loaded(run, dict, path, start, d, i, k);
    lemma_held_loads_back(run[k].dir, d);
}

/// After a run over the store that finishes, each dictionary is mapped when it is asked for, from
/// its own directory, and lindera's loaders find there what a load of the embedded copy gave. The
/// store may be empty when the run begins, or hold what earlier runs have left.
pub proof fn law_finished_run_loads_back(
    run: Seq<EnsurePoint>,
    root: Seq<char>,
    start: Store,
    k: int,
    j: int,
)
    requires
        is_ensure_run(run, root, start),
        sound(start),
        0 <= k < run.len(),
        run[k].asked is Finished,
        0 <= j < DICT_COUNT,
    ensures
        load_answer(root, dict_name(j), presence_of(run[k].store[j])) == Ok::<
            MapRequestText,
            FailureText,
        >(MapRequestText { dir: path_text(root, dict_name(j)), use_mmap: true }),
        exists|d: Dictionary|
            #![trigger loaded_from(dict_uri(j), d)]
            loaded_from(dict_uri(j), d) && loads_back(run[k].store[j], d),
{
    law_finished_is_ready(run, root, start, k, j);
    law_sound_store_stays_sound(run, root, start, k);
    assert(dict_complete(run[k].store[j], j));
    let d = choose|d: Dictionary|
        #![trigger loaded_from(dict_uri(j), d)]
        loaded_from(dict_uri(j), d) && holds_dict(run[k].store[j], d);
    lemma_held_loads_back(run[k].store[j], d);
}

/// A dictionary whose directory lacks the marker, the double array or the metadata is refused, and
/// any other is mapped.
pub proof fn law_unready_directories_are_refused(root: Seq<char>, lang: Seq<char>, dir: Dir)
    ensures
        load_answer(root, lang, presence_of(dir)) is Ok <==> dir.dom().contains(".materialized"@)
            && dir.dom().contains("dict.da"@) && dir.dom().contains("metadata.json"@),
{
    law_only_complete_dictionaries_are_mapped(root, lang, presence_of(dir));
}

} // verus!
