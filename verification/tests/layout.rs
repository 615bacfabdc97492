use std::path::{Path, PathBuf};

use lindera_store::layout::{
    default_dict_root, dict_is_ready, path_join, temp_name, Presence, DEFAULT_ROOT, DICTS,
    DICT_COUNT, FILES, FILE_COUNT, ROOT_VARIABLE,
};

#[test]
fn root_is_moved_by_the_variable() {
    assert_eq!(ROOT_VARIABLE, "PARADEDB_LINDERA_DICT_ROOT");
    assert_eq!(default_dict_root(Some("/tmp/dicts".to_string())), "/tmp/dicts");
    assert_eq!(default_dict_root(Some(String::new())), "");
}

#[test]
fn root_without_the_variable() {
    assert_eq!(default_dict_root(None), "/var/lib/postgresql/lindera-dicts");
    assert_eq!(DEFAULT_ROOT, "/var/lib/postgresql/lindera-dicts");
}

#[test]
fn dictionaries_of_the_store() {
    assert_eq!(DICTS.len(), DICT_COUNT);
    assert_eq!(DICTS[0], ("cc-cedict", "embedded://cc-cedict"));
    assert_eq!(DICTS[1], ("ipadic", "embedded://ipadic"));
    assert_eq!(DICTS[2], ("ko-dic", "embedded://ko-dic"));
}

#[test]
fn files_of_a_dictionary() {
    assert_eq!(FILES.len(), FILE_COUNT);
    assert_eq!(
        FILES.to_vec(),
        vec![
            "dict.da",
            "dict.vals",
            "dict.wordsidx",
            "dict.words",
            "matrix.mtx",
            "char_def.bin",
            "unk.bin",
            "metadata.json",
            ".materialized",
        ]
    );
}

#[test]
fn ready_needs_all_three_files() {
    for bits in 0..8 {
        let present = Presence {
            marker: bits & 1 != 0,
            da: bits & 2 != 0,
            metadata: bits & 4 != 0,
        };
        assert_eq!(dict_is_ready(present), bits == 7);
    }
}

#[test]
fn temp_names_of_the_files() {
    assert_eq!(temp_name("dict.da"), "dict.tmp");
    assert_eq!(temp_name("dict.wordsidx"), "dict.tmp");
    assert_eq!(temp_name("matrix.mtx"), "matrix.tmp");
    assert_eq!(temp_name("char_def.bin"), "char_def.tmp");
    assert_eq!(temp_name("unk.bin"), "unk.tmp");
    assert_eq!(temp_name("metadata.json"), "metadata.tmp");
    assert_eq!(temp_name(".materialized"), ".materialized.tmp");
}

#[test]
fn temp_names_are_those_of_with_extension() {
    let mut names: Vec<&str> = FILES.to_vec();
    for name in vec!["plain", "a.b.c", "trailing.", "...x", "..a.b", ".a", ".a.b", "...", "語.辞書", "a..b"] {
        names.push(name);
    }
    for name in names {
        let expected = Path::new(name).with_extension("tmp");
        assert_eq!(PathBuf::from(temp_name(name)), expected);
    }
}

#[test]
fn file_names_differ_from_each_other_and_from_temp_names() {
    for (i, a) in FILES.iter().enumerate() {
        for (j, b) in FILES.iter().enumerate() {
            assert_ne!(*a, temp_name(b));
            assert_eq!(a == b, i == j);
        }
    }
}

#[test]
fn paths_join_as_paths_do() {
    assert_eq!(path_join("/var/dicts", "ipadic"), "/var/dicts/ipadic");
    assert_eq!(path_join("/var/dicts/", "ipadic"), "/var/dicts/ipadic");
    assert_eq!(path_join("", "ipadic"), "ipadic");
    assert_eq!(path_join("/var/dicts", "/etc"), "/etc");
    assert_eq!(path_join("/var/dicts", ""), "/var/dicts/");
    assert_eq!(path_join("", ""), "");
    let roots = vec!["", "/", "a", "a/", "/a/b", "語"];
    let names = vec!["", "x", "/x", "x/y", ".materialized", "語"];
    for root in &roots {
        for name in &names {
            let expected = format!("{}", Path::new(root).join(name).display());
            assert_eq!(path_join(root, name), expected);
        }
    }
}
