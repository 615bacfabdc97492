use std::collections::BTreeMap;

use lindera_dictionary::dictionary::character_definition::{
    CategoryData, CategoryId, CharacterDefinition, LookupTable,
};
use lindera_dictionary::dictionary::connection_cost_matrix::ConnectionCostMatrix;
use lindera_dictionary::dictionary::metadata::Metadata;
use lindera_dictionary::dictionary::prefix_dictionary::PrefixDictionary;
use lindera_dictionary::dictionary::unknown_dictionary::UnknownDictionary;
use lindera_dictionary::dictionary::Dictionary;
use lindera_dictionary::error::LinderaErrorKind;
use lindera_dictionary::viterbi::{LexType, WordEntry, WordId};
use lindera_store::atomic::FileOp;
use lindera_store::dictionary::{
    file_contents, load_embedded, load_refusal, read_char_def, read_metadata, read_unk, wrapped,
    Contents,
};
use lindera_store::ensure::{
    ensure_materialized, EnsureAction, EnsureEvent, EnsureMaterialized, EnsureStage,
};
use lindera_store::envelope::unwrap_raw;
use lindera_store::failure::Failure;
use lindera_store::layout::{
    dict_is_ready, Presence, DA_FILE, FILES, METADATA_FILE, READY_MARKER,
};
use lindera_store::load::load_mmap;
use lindera_store::materialize::{
    materialize_one, DictOp, MaterializeAction, MaterializeOne, MaterializeStage,
};

type Dir = BTreeMap<String, Vec<u8>>;

fn sample() -> Dictionary {
    Dictionary {
        prefix_dictionary: PrefixDictionary::load(
            vec![1u8, 2, 3, 4],
            vec![5u8, 6],
            vec![7u8],
            vec![8u8, 9, 10],
            true,
        ),
        connection_cost_matrix: ConnectionCostMatrix::load(vec![1u8, 0, 1, 0, 17, 0]),
        character_definition: CharacterDefinition {
            category_definitions: vec![CategoryData { invoke: true, group: false, length: 4 }],
            category_names: vec!["DEFAULT".to_string(), "KANJI".to_string()],
            mapping: LookupTable::from_fn(vec![0, 10], &|c, out| {
                out.push(CategoryId(if c < 10 { 0 } else { 1 }));
            }),
        },
        unknown_dictionary: UnknownDictionary {
            category_references: vec![vec![0], vec![1, 2]],
            costs: vec![WordEntry {
                word_id: WordId::new(LexType::Unknown, 3),
                word_cost: -5,
                left_id: 6,
                right_id: 7,
            }],
        },
        metadata: Metadata::default(),
    }
}

fn contents(i: usize) -> Vec<u8> {
    match file_contents(&sample(), i) {
        Contents::Bytes(bytes) => bytes,
        Contents::Refused(f) => panic!("{}", f.context),
        Contents::TooLarge => panic!("too large"),
    }
}

fn payload(file: &[u8]) -> Vec<u8> {
    match unwrap_raw(file) {
        Some(payload) => payload,
        None => panic!("no envelope"),
    }
}

fn presence(dir: &Dir) -> Presence {
    Presence {
        marker: dir.contains_key(READY_MARKER),
        da: dir.contains_key(DA_FILE),
        metadata: dir.contains_key(METADATA_FILE),
    }
}

fn perform(dir: &mut Dir, op: &DictOp) {
    match op {
        DictOp::CreateDir => {}
        DictOp::RemoveMarker => {
            dir.remove(READY_MARKER);
        }
        DictOp::File(FileOp::Create { temp }) => {
            dir.insert(temp.clone(), Vec::new());
        }
        DictOp::File(FileOp::Write { temp, bytes }) => {
            dir.insert(temp.clone(), bytes.clone());
        }
        DictOp::File(FileOp::Sync { .. }) => {}
        DictOp::File(FileOp::Rename { temp, file }) => match dir.remove(temp) {
            Some(bytes) => {
                dir.insert(file.clone(), bytes);
            }
            None => panic!("nothing to rename"),
        },
    }
}

/// Begins with the sample in place of an embedded copy. Gives the removal of the marker.
fn begun_with_sample() -> (MaterializeOne, MaterializeAction) {
    let (mut one, op) = materialize_one(1, "/d/ipadic");
    assert!(matches!(op, DictOp::CreateDir));
    let action = one.take_loaded(Ok(sample()));
    assert!(matches!(action, MaterializeAction::Perform(DictOp::RemoveMarker)));
    (one, action)
}

/// Materializes the sample in the directory, with every operation performed.
fn materialize_in(dir: &mut Dir) {
    let (mut one, mut action) = begun_with_sample();
    loop {
        match action {
            MaterializeAction::Perform(op) => {
                perform(dir, &op);
                action = one.step(Ok(()));
            }
            MaterializeAction::Finished => return,
            _ => panic!("failed"),
        }
    }
}

#[test]
fn byte_tables_go_into_envelopes() {
    assert_eq!(payload(&contents(0)), vec![1, 2, 3, 4]);
    assert_eq!(payload(&contents(1)), vec![5, 6]);
    assert_eq!(payload(&contents(2)), vec![7]);
    assert_eq!(payload(&contents(3)), vec![8, 9, 10]);
    assert_eq!(payload(&contents(4)), vec![1, 0, 1, 0, 17, 0]);
}

#[test]
fn mapped_tables_start_their_files() {
    assert_eq!(&contents(0)[..4], &[1, 2, 3, 4]);
    assert_eq!(&contents(4)[..6], &[1, 0, 1, 0, 17, 0]);
    let mapped = ConnectionCostMatrix::load(contents(4));
    assert_eq!(mapped.backward_size, 1);
    assert_eq!(mapped.cost(0, 0), 17);
}

#[test]
fn character_definition_reads_back() {
    match read_char_def(&contents(5)) {
        Some(read) => {
            assert_eq!(read.category_names, vec!["DEFAULT".to_string(), "KANJI".to_string()]);
            assert_eq!(read.category_definitions.len(), 1);
            assert!(read.category_definitions[0].invoke);
            assert!(!read.category_definitions[0].group);
            assert_eq!(read.category_definitions[0].length, 4);
            assert_eq!(read.mapping.eval(9), &[CategoryId(0)]);
            assert_eq!(read.mapping.eval(10), &[CategoryId(1)]);
        }
        None => panic!("not read"),
    }
    assert!(CharacterDefinition::load(&payload(&contents(5))).is_ok());
    assert!(read_char_def(b"no envelope").is_none());
    assert!(read_char_def(&contents(0)).is_none());
}

#[test]
fn unknown_dictionary_reads_back() {
    match read_unk(&contents(6)) {
        Some(read) => {
            assert_eq!(read.category_references, vec![vec![0], vec![1, 2]]);
            assert_eq!(read.costs, sample().unknown_dictionary.costs);
        }
        None => panic!("not read"),
    }
    assert!(read_unk(b"no envelope").is_none());
    assert!(read_unk(&contents(0)).is_none());
}

#[test]
fn metadata_is_plain_json() {
    let bytes = contents(7);
    assert_eq!(bytes[0], b'{');
    match read_metadata(&bytes) {
        Some(read) => {
            assert_eq!(read.name, "default");
            assert_eq!(read.encoding, "UTF-8");
            assert_eq!(read.default_word_cost, -10000);
            assert_eq!(read.default_left_context_id, 1288);
            assert_eq!(read.dictionary_schema.get_field_index("reading"), Some(11));
            assert_eq!(serde_json::to_vec(&read).ok(), Some(bytes.clone()));
        }
        None => panic!("not read"),
    }
    let again = read_metadata(&bytes).map(|read| serde_json::to_vec(&read).ok());
    assert_eq!(again, Some(Some(bytes.clone())));
    assert!(read_metadata(b"{").is_none());
    assert!(bytes.starts_with(b"{\"name\":\"default\",\"encoding\":\"UTF-8\","));
}

#[test]
fn marker_holds_ok() {
    assert_eq!(contents(8), b"ok\n".to_vec());
}

#[test]
fn wrapped_payload_is_an_envelope() {
    match wrapped(&[9, 9]) {
        Contents::Bytes(file) => assert_eq!(unwrap_raw(&file), Some(vec![9, 9])),
        _ => panic!("no envelope"),
    }
}

#[test]
fn refused_load_is_named() {
    let error = LinderaErrorKind::Dictionary.with_error(anyhow::Error::msg("gone"));
    let f = load_refusal("embedded://ipadic", &error);
    assert_eq!(
        f.context,
        "load_dictionary(embedded://ipadic) failed: LinderaError(kind=Dictionary, source=gone)"
    );
    assert_eq!(f.cause, None);
}

#[test]
fn program_without_embedded_copies_refuses_to_load() {
    let names = vec!["cc-cedict", "ipadic", "ko-dic"];
    for (i, name) in names.iter().enumerate() {
        match load_embedded(i) {
            Ok(_) => panic!("loaded"),
            Err(f) => {
                let start = format!("load_dictionary(embedded://{}) failed: LinderaError", name);
                assert!(f.context.starts_with(&start));
                assert_eq!(f.cause, None);
            }
        }
    }
}

#[test]
fn materialization_writes_every_file_and_the_marker_last() {
    let (mut one, mut action) = begun_with_sample();
    let mut dir = Dir::new();
    dir.insert("other".to_string(), vec![42]);
    let mut order: Vec<String> = Vec::new();
    let mut steps = 0;
    loop {
        match action {
            MaterializeAction::Perform(op) => {
                perform(&mut dir, &op);
                if let DictOp::File(FileOp::Rename { file, .. }) = &op {
                    order.push(file.clone());
                }
                assert_eq!(dir.contains_key(READY_MARKER), order.len() == FILES.len());
                steps += 1;
                action = one.step(Ok(()));
            }
            MaterializeAction::Finished => break,
            _ => panic!("failed"),
        }
    }
    assert_eq!(steps, 37);
    assert_eq!(order, FILES.iter().map(|f| f.to_string()).collect::<Vec<String>>());
    assert!(one.stage == MaterializeStage::Finished);
    assert!(one.dictionary.is_none());
    for (i, file) in FILES.iter().enumerate() {
        assert_eq!(dir.get(*file), Some(&contents(i)));
    }
    assert_eq!(dir.get("other"), Some(&vec![42]));
    assert_eq!(dir.len(), FILES.len() + 1);
    assert!(dict_is_ready(presence(&dir)));
}

#[test]
fn materialization_cut_short_leaves_no_marker() {
    for cut in 0..37 {
        let (mut one, mut action) = begun_with_sample();
        let mut dir = Dir::new();
        for _ in 0..cut {
            match action {
                MaterializeAction::Perform(op) => {
                    perform(&mut dir, &op);
                    action = one.step(Ok(()));
                }
                _ => panic!("ended"),
            }
        }
        assert!(matches!(action, MaterializeAction::Perform(_)));
        assert!(!dir.contains_key(READY_MARKER));
        for (i, file) in FILES.iter().enumerate() {
            if let Some(bytes) = dir.get(*file) {
                assert_eq!(bytes, &contents(i));
            }
        }
    }
}

#[test]
fn materialization_fails_with_the_write() {
    let (mut one, _) = begun_with_sample();
    one.step(Ok(()));
    match one.step(Err("no room".to_string())) {
        MaterializeAction::Failed(f) => {
            assert_eq!(f.context, "create /d/ipadic/dict.tmp");
            assert_eq!(f.cause, Some("no room".to_string()));
        }
        _ => panic!("went on"),
    }
    assert!(one.stage == MaterializeStage::Failed);
    assert!(one.dictionary.is_none());
}

#[test]
fn old_marker_never_vouches_for_a_partial_write() {
    for cut in 0..37 {
        let (mut one, mut action) = begun_with_sample();
        let mut dir = Dir::new();
        dir.insert(READY_MARKER.to_string(), vec![0]);
        dir.insert(METADATA_FILE.to_string(), vec![0]);
        for step in 0..=cut {
            match action {
                MaterializeAction::Perform(op) => {
                    let refused = step == cut && !matches!(op, DictOp::File(FileOp::Sync { .. }));
                    if refused {
                        action = one.step(Err("no room".to_string()));
                    } else {
                        perform(&mut dir, &op);
                        action = one.step(Ok(()));
                    }
                    assert!(!dict_is_ready(presence(&dir)));
                }
                _ => panic!("ended"),
            }
        }
    }
}

#[test]
fn refused_removal_of_the_marker_fails_the_materialization() {
    let (mut one, _) = begun_with_sample();
    match one.step(Err("read-only".to_string())) {
        MaterializeAction::Failed(f) => {
            assert_eq!(f.context, "remove /d/ipadic/.materialized");
            assert_eq!(f.cause, Some("read-only".to_string()));
        }
        _ => panic!("went on"),
    }
    assert!(one.stage == MaterializeStage::Failed);
    assert!(one.dictionary.is_none());
}

#[test]
fn outcome_does_not_depend_on_what_was_there() {
    let mut empty = Dir::new();
    let mut littered = Dir::new();
    for file in FILES {
        littered.insert(file.to_string(), vec![9; 500]);
    }
    for temp in vec!["dict.tmp", "matrix.tmp", ".materialized.tmp", "metadata.tmp"] {
        littered.insert(temp.to_string(), vec![1]);
    }
    materialize_in(&mut empty);
    materialize_in(&mut littered);
    assert_eq!(empty, littered);
    assert_eq!(empty.len(), FILES.len());
}

#[test]
fn refused_directory_fails_the_materialization() {
    let (mut one, _) = materialize_one(0, "/d/cc-cedict");
    match one.step(Err("read-only".to_string())) {
        MaterializeAction::Failed(f) => {
            assert_eq!(f.context, "mkdir /d/cc-cedict");
            assert_eq!(f.cause, Some("read-only".to_string()));
        }
        _ => panic!("went on"),
    }
}

#[test]
fn refused_load_fails_the_materialization() {
    let (mut one, _) = materialize_one(2, "/d/ko-dic");
    let refusal = Failure { context: "gone".to_string(), cause: None };
    match one.take_loaded(Err(refusal)) {
        MaterializeAction::Failed(f) => assert_eq!(f.context, "gone"),
        _ => panic!("went on"),
    }
    assert!(one.stage == MaterializeStage::Failed);
}

/// Carries a run out on directories in memory, with the sample in place of the embedded copies.
/// Gives the number of operations on directories and whether memory was handed back.
fn carry_out(
    run: &mut EnsureMaterialized,
    first: EnsureAction,
    store: &mut Vec<Dir>,
) -> (usize, bool) {
    let mut action = first;
    let mut ops = 0;
    let mut trimmed = false;
    loop {
        match action {
            EnsureAction::CreateRoot => action = run.step(EnsureEvent::Done),
            EnsureAction::Probe { dict } => {
                action = run.step(EnsureEvent::Probed(presence(&store[dict])));
            }
            EnsureAction::InDict { dict, op } => {
                ops += 1;
                perform(&mut store[dict], &op);
                if let DictOp::CreateDir = op {
                    let asked = match run.one.as_mut() {
                        Some(one) => one.take_loaded(Ok(sample())),
                        None => panic!("nothing under way"),
                    };
                    action = match asked {
                        MaterializeAction::Perform(op) => EnsureAction::InDict { dict, op },
                        _ => panic!("ended"),
                    };
                } else {
                    action = run.step(EnsureEvent::Done);
                }
            }
            EnsureAction::TrimHeap => {
                trimmed = true;
                action = run.step(EnsureEvent::Done);
            }
            EnsureAction::Finished => return (ops, trimmed),
            EnsureAction::Failed(f) => panic!("{}", f.context),
            EnsureAction::TooLarge => panic!("too large"),
        }
    }
}

#[test]
fn run_materializes_all_and_a_second_run_nothing() {
    let mut store: Vec<Dir> = vec![Dir::new(), Dir::new(), Dir::new()];
    let (mut run, first) = ensure_materialized("/d");
    assert_eq!(carry_out(&mut run, first, &mut store), (3 * 38, true));
    assert!(run.stage == EnsureStage::Finished);
    for (dir, name) in store.iter().zip(vec!["cc-cedict", "ipadic", "ko-dic"]) {
        for (i, file) in FILES.iter().enumerate() {
            assert_eq!(dir.get(*file), Some(&contents(i)));
        }
        assert!(load_mmap("/d", name, presence(dir)).is_ok());
    }
    let before = store.clone();
    let (mut again, first) = ensure_materialized("/d");
    assert_eq!(carry_out(&mut again, first, &mut store), (0, false));
    assert_eq!(store, before);
}

#[test]
fn run_leaves_what_is_ready() {
    let mut ready = Dir::new();
    for file in vec![READY_MARKER, DA_FILE, METADATA_FILE] {
        ready.insert(file.to_string(), vec![0]);
    }
    let mut store: Vec<Dir> = vec![Dir::new(), ready.clone(), Dir::new()];
    let (mut run, first) = ensure_materialized("/d");
    assert_eq!(carry_out(&mut run, first, &mut store), (2 * 38, true));
    assert_eq!(store[1], ready);
    assert!(dict_is_ready(presence(&store[0])));
    assert!(dict_is_ready(presence(&store[2])));
}

#[test]
fn run_mends_what_lacks_only_its_double_array() {
    let mut partial = Dir::new();
    partial.insert(READY_MARKER.to_string(), vec![0]);
    partial.insert(METADATA_FILE.to_string(), vec![0]);
    let mut store: Vec<Dir> = vec![Dir::new(), Dir::new(), partial];
    let (mut run, first) = ensure_materialized("/d");
    assert_eq!(carry_out(&mut run, first, &mut store), (3 * 38, true));
    assert_eq!(store[2], store[0]);
}

#[test]
fn run_mends_what_lacks_its_marker() {
    let mut partial = Dir::new();
    partial.insert(DA_FILE.to_string(), vec![0]);
    partial.insert(METADATA_FILE.to_string(), vec![0]);
    let mut store: Vec<Dir> = vec![partial, Dir::new(), Dir::new()];
    let (mut run, first) = ensure_materialized("/d");
    carry_out(&mut run, first, &mut store);
    assert_eq!(store[0].get(DA_FILE), Some(&contents(0)));
    assert_eq!(store[0].get(METADATA_FILE), Some(&contents(7)));
}

#[test]
fn failed_run_leaves_what_is_behind_it() {
    let mut marked = Dir::new();
    marked.insert(READY_MARKER.to_string(), vec![0]);
    let mut store: Vec<Dir> = vec![Dir::new(), marked, Dir::new()];
    let (mut run, mut action) = ensure_materialized("/d");
    loop {
        match action {
            EnsureAction::CreateRoot => action = run.step(EnsureEvent::Done),
            EnsureAction::Probe { dict } => {
                action = run.step(EnsureEvent::Probed(presence(&store[dict])));
            }
            EnsureAction::InDict { dict, op } => {
                if let DictOp::CreateDir = op {
                    action = match run.one.as_mut().map(|one| one.take_loaded(Ok(sample()))) {
                        Some(MaterializeAction::Perform(op)) => EnsureAction::InDict { dict, op },
                        _ => panic!("ended"),
                    };
                } else if dict == 1 && matches!(op, DictOp::File(FileOp::Rename { .. })) {
                    action = run.step(EnsureEvent::Refused("no leave".to_string()));
                } else {
                    perform(&mut store[dict], &op);
                    action = run.step(EnsureEvent::Done);
                }
            }
            EnsureAction::Failed(f) => {
                assert_eq!(f.context, "rename /d/ipadic/dict.tmp -> /d/ipadic/dict.da");
                break;
            }
            _ => panic!("no failure"),
        }
    }
    assert_eq!(run.dict, 1);
    assert!(dict_is_ready(presence(&store[0])));
    assert!(!store[1].contains_key(READY_MARKER));
    assert_eq!(store[2], Dir::new());
}

#[test]
fn refused_root_fails_the_run() {
    let (mut run, first) = ensure_materialized("/d");
    assert!(matches!(first, EnsureAction::CreateRoot));
    match run.step(EnsureEvent::Refused("read-only".to_string())) {
        EnsureAction::Failed(f) => {
            assert_eq!(f.context, "mkdir /d");
            assert_eq!(f.cause, Some("read-only".to_string()));
        }
        _ => panic!("went on"),
    }
    assert!(run.stage == EnsureStage::Failed);
}

#[test]
fn refused_operation_in_a_dictionary_fails_the_run() {
    let (mut run, _) = ensure_materialized("/d");
    run.step(EnsureEvent::Done);
    let absent = Presence { marker: false, da: false, metadata: false };
    assert!(matches!(
        run.step(EnsureEvent::Probed(absent)),
        EnsureAction::InDict { dict: 0, op: DictOp::CreateDir }
    ));
    match run.step(EnsureEvent::Refused("read-only".to_string())) {
        EnsureAction::Failed(f) => assert_eq!(f.context, "mkdir /d/cc-cedict"),
        _ => panic!("went on"),
    }
    assert!(run.stage == EnsureStage::Failed);
    assert!(run.one.is_none());
}
