use lindera_dictionary::error::LinderaErrorKind;
use lindera_store::layout::Presence;
use lindera_store::load::{load_mmap, map_refusal};

#[test]
fn complete_dictionary_is_mapped() {
    let present = Presence { marker: true, da: true, metadata: true };
    match load_mmap("/var/dicts", "ipadic", present) {
        Ok(request) => {
            assert_eq!(request.dir, "/var/dicts/ipadic");
            assert!(request.use_mmap);
        }
        Err(f) => panic!("{}", f.context),
    }
}

#[test]
fn incomplete_dictionary_is_not_mapped() {
    let present = Presence { marker: false, da: true, metadata: true };
    match load_mmap("/var/dicts", "ko-dic", present) {
        Ok(_) => panic!("mapped"),
        Err(f) => {
            assert_eq!(
                f.context,
                "lindera dict for ko-dic not materialized; expected at /var/dicts/ko-dic"
            );
            assert_eq!(f.cause, None);
        }
    }
}

#[test]
fn refusal_to_map_names_the_directory() {
    let error = LinderaErrorKind::Io.with_error(anyhow::Error::msg("no such file"));
    let f = map_refusal("/var/dicts/ipadic", &error);
    assert_eq!(
        f.context,
        "load_from_path_with_options(/var/dicts/ipadic): LinderaError(kind=Io, source=no such file)"
    );
    assert_eq!(f.cause, None);
}
