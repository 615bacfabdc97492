use lindera_store::atomic::{write_atomic, AtomicWrite, FileOp, WriteAction, WriteStage};
use lindera_store::failure::Failure;

fn begun() -> AtomicWrite {
    let (write, op) = write_atomic("/d", "dict.da", vec![1, 2, 3]);
    assert!(matches!(op, FileOp::Create { ref temp } if temp == "dict.tmp"));
    write
}

fn failure(action: WriteAction) -> Failure {
    match action {
        WriteAction::Failed(f) => f,
        _ => panic!("the write went on"),
    }
}

#[test]
fn write_goes_through_its_four_operations() {
    let mut write = begun();
    match write.step(Ok(())) {
        WriteAction::Perform(FileOp::Write { temp, bytes }) => {
            assert_eq!(temp, "dict.tmp");
            assert_eq!(bytes, vec![1, 2, 3]);
        }
        _ => panic!("no write"),
    }
    match write.step(Ok(())) {
        WriteAction::Perform(FileOp::Sync { temp }) => assert_eq!(temp, "dict.tmp"),
        _ => panic!("no sync"),
    }
    match write.step(Ok(())) {
        WriteAction::Perform(FileOp::Rename { temp, file }) => {
            assert_eq!(temp, "dict.tmp");
            assert_eq!(file, "dict.da");
        }
        _ => panic!("no rename"),
    }
    assert!(matches!(write.step(Ok(())), WriteAction::Finished));
    assert!(write.stage == WriteStage::Finished);
}

#[test]
fn refused_creation_fails_the_write() {
    let mut write = begun();
    let f = failure(write.step(Err("no room".to_string())));
    assert_eq!(f.context, "create /d/dict.tmp");
    assert_eq!(f.cause, Some("no room".to_string()));
    assert!(write.stage == WriteStage::Failed);
}

#[test]
fn refused_write_fails_the_write() {
    let mut write = begun();
    write.step(Ok(()));
    let f = failure(write.step(Err("no room".to_string())));
    assert_eq!(f.context, "write /d/dict.tmp");
    assert_eq!(f.cause, Some("no room".to_string()));
}

#[test]
fn refused_sync_is_no_failure() {
    let mut write = begun();
    write.step(Ok(()));
    write.step(Ok(()));
    assert!(matches!(
        write.step(Err("no medium".to_string())),
        WriteAction::Perform(FileOp::Rename { .. })
    ));
}

#[test]
fn refused_rename_fails_the_write() {
    let mut write = begun();
    write.step(Ok(()));
    write.step(Ok(()));
    write.step(Ok(()));
    let f = failure(write.step(Err("no leave".to_string())));
    assert_eq!(f.context, "rename /d/dict.tmp -> /d/dict.da");
    assert_eq!(f.cause, Some("no leave".to_string()));
}
