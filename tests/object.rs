use vnbase::object::{drop_route, DropRoute, ObjH, ObjectList, Release};

#[test]
fn drop_while_weak() {
    let mut c = ObjH::new();
    c.downgrade();
    assert_eq!((c.strong_count(), c.weak_count()), (1, 2));
    let r = c.dec_strong();
    assert!(r.destroy_node);
    assert!(!r.free_block);
    assert_eq!(drop_route(&r, false), DropRoute::PostDestroy);
    assert!(!c.upgrade());
    assert_eq!(c.strong_count(), 0);
    assert!(c.dec_weak());
}

#[test]
fn upgrade_while_strong() {
    let mut c = ObjH::new();
    c.downgrade();
    assert!(c.upgrade());
    assert_eq!(c.strong_count(), 2);
    let r = c.dec_strong();
    assert!(!r.destroy_node);
    assert_eq!(drop_route(&r, true), DropRoute::Keep);
    let r = c.dec_strong();
    assert!(r.destroy_node);
    assert_eq!(drop_route(&r, true), DropRoute::DestroyHere);
    assert!(c.dec_weak());
}

#[test]
fn last_strong_frees_block() {
    let mut c = ObjH::new();
    c.inc_strong();
    assert!(!c.dec_strong().destroy_node);
    let r = c.dec_strong();
    assert!(r.destroy_node && r.free_block);
    assert_eq!((c.strong_count(), c.weak_count()), (0, 0));
}

#[test]
fn weak_only_block() {
    let mut c = ObjH::new_weak();
    assert!(!c.upgrade());
    c.inc_weak();
    assert!(!c.dec_weak());
    assert!(c.dec_weak());
    let keep = Release { destroy_node: false, free_block: false };
    assert_eq!(drop_route(&keep, false), DropRoute::Keep);
}

#[test]
fn object_destroyed_once() {
    let mut list: ObjectList<String> = ObjectList::new();
    let a = list.create(String::from("a"));
    let b = list.create(String::from("b"));
    assert_eq!((a, b), (0, 1));
    assert_eq!(list.get(a).map(|s| s.as_str()), Some("a"));
    assert_eq!(list.remove(a), Some(String::from("a")));
    assert_eq!(list.remove(a), None);
    assert_eq!(list.get(a), None);
    assert_eq!(list.get(b).map(|s| s.as_str()), Some("b"));
    assert_eq!(list.get(9), None);
    assert_eq!(list.len(), 2);
}
