use quicfile::error::ProtocolError;
use quicfile::resolve::{join_path, resolve_path};

#[test]
fn resolves_single_component() {
    let segs = resolve_path(&b"/a.txt".to_vec()).unwrap();
    assert_eq!(segs, vec![b"a.txt".to_vec()]);
}

#[test]
fn resolves_nested_components() {
    let segs = resolve_path(&b"/d/e/f".to_vec()).unwrap();
    assert_eq!(segs, vec![b"d".to_vec(), b"e".to_vec(), b"f".to_vec()]);
}

#[test]
fn resolves_root_alone_to_no_components() {
    let segs = resolve_path(&b"/".to_vec()).unwrap();
    assert_eq!(segs, Vec::<Vec<u8>>::new());
}

#[test]
fn rejects_parent_reference_at_top() {
    assert_eq!(
        resolve_path(&b"/../etc/passwd".to_vec()).unwrap_err(),
        ProtocolError::IllegalPath
    );
}

#[test]
fn rejects_parent_reference_at_depth() {
    assert_eq!(resolve_path(&b"/a/b/../c".to_vec()).unwrap_err(), ProtocolError::IllegalPath);
    assert_eq!(resolve_path(&b"/a/b/c/..".to_vec()).unwrap_err(), ProtocolError::IllegalPath);
}

#[test]
fn rejects_current_reference() {
    assert_eq!(resolve_path(&b"/a/./b".to_vec()).unwrap_err(), ProtocolError::IllegalPath);
    assert_eq!(resolve_path(&b"/.".to_vec()).unwrap_err(), ProtocolError::IllegalPath);
}

#[test]
fn rejects_relative_paths() {
    assert_eq!(resolve_path(&b"etc/passwd".to_vec()).unwrap_err(), ProtocolError::IllegalPath);
    assert_eq!(resolve_path(&b"a.txt".to_vec()).unwrap_err(), ProtocolError::IllegalPath);
    assert_eq!(resolve_path(&b"".to_vec()).unwrap_err(), ProtocolError::IllegalPath);
}

#[test]
fn rejects_empty_components() {
    assert_eq!(resolve_path(&b"//x".to_vec()).unwrap_err(), ProtocolError::IllegalPath);
    assert_eq!(resolve_path(&b"/a//b".to_vec()).unwrap_err(), ProtocolError::IllegalPath);
    assert_eq!(resolve_path(&b"/a/".to_vec()).unwrap_err(), ProtocolError::IllegalPath);
}

#[test]
fn accepts_dotted_names_that_are_not_references() {
    let segs = resolve_path(&b"/...".to_vec()).unwrap();
    assert_eq!(segs, vec![b"...".to_vec()]);
    let segs = resolve_path(&b"/a..b/.hidden".to_vec()).unwrap();
    assert_eq!(segs, vec![b"a..b".to_vec(), b".hidden".to_vec()]);
}

#[test]
fn joins_components_under_root() {
    let root = b"/srv".to_vec();
    let segs = resolve_path(&b"/a/b.txt".to_vec()).unwrap();
    let joined = join_path(&root, &segs);
    assert_eq!(joined, b"/srv/a/b.txt".to_vec());
}

#[test]
fn joins_no_components_to_root_itself() {
    let root = b"/srv".to_vec();
    let joined = join_path(&root, &Vec::new());
    assert_eq!(joined, b"/srv".to_vec());
}
