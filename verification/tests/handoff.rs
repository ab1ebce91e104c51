use lightning_prune::init_info::{InitInfo, InitInfoCell, InitInfoState};

fn payload(path: &str, interval: u64) -> InitInfo {
    InitInfo { socket_path: path.to_owned(), pruning_interval: interval }
}

#[test]
fn waiting_cell_yields_nothing_until_delivery() {
    let mut cell = InitInfoCell::new();
    assert!(matches!(cell.state, InitInfoState::Waiting));
    assert!(cell.poll(None).is_none());
    assert!(cell.poll(None).is_none());
    assert!(matches!(cell.state, InitInfoState::Waiting));
}

#[test]
fn first_delivery_resolves_the_cell() {
    let mut cell = InitInfoCell::new();
    let got = cell.poll(Some(payload("/run/ln/rpc", 600))).unwrap();
    assert_eq!(got.socket_path, "/run/ln/rpc");
    assert_eq!(got.pruning_interval, 600);
    assert!(matches!(cell.state, InitInfoState::Resolved(_)));
}

#[test]
fn resolution_happens_at_most_once() {
    let mut cell = InitInfoCell::new();
    assert!(cell.poll(None).is_none());
    let first = cell.poll(Some(payload("/first", 1))).unwrap();
    assert_eq!(first.socket_path, "/first");
    // A later delivery is ignored: every reader sees the first payload.
    let second = cell.poll(Some(payload("/second", 2))).unwrap();
    assert_eq!(second.socket_path, "/first");
    assert_eq!(second.pruning_interval, 1);
    let third = cell.poll(None).unwrap();
    assert_eq!(third.socket_path, "/first");
    match &cell.state {
        InitInfoState::Resolved(v) => assert_eq!(v.socket_path, "/first"),
        _ => panic!("expected a resolved cell"),
    }
}

#[test]
fn duplicate_copies_the_payload() {
    let p = payload("/a/b", 7);
    let q = p.duplicate();
    assert_eq!(q.socket_path, "/a/b");
    assert_eq!(q.pruning_interval, 7);
}
