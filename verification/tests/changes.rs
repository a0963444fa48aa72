use xvi::buffer::Buffer;
use xvi::changes::ChangeList;

#[test]
fn test_changesqueue() {
    let mut ch = ChangeList::default();

    ch.set(0x1234, 1, 2);
    ch.set(0x1235, 3, 4);
    ch.set(0x1235, 4, 5);
    ch.set(0x1235, 5, 6);
    let real = ch.get();
    assert_eq!(real.len(), 2);
    assert_eq!(*real.get(&0x1234).unwrap(), 2);
    assert_eq!(*real.get(&0x1235).unwrap(), 6);

    ch.set(0x1234, 2, 1); // restore origin
    let real = ch.get();
    assert_eq!(real.len(), 1);
    assert_eq!(*real.get(&0x1235).unwrap(), 6);

    ch.undo();
    assert_eq!(ch.get().len(), 2);
    ch.undo();
    assert_eq!(ch.get().len(), 1);
    ch.undo();
    assert_eq!(ch.get().len(), 0);
    ch.undo();

    ch.redo();
    assert_eq!(ch.get().len(), 1);

    ch.reset();
    assert_eq!(ch.get().len(), 0);
}

#[test]
fn changes_undo_redo_roundtrip() {
    let mut ch = ChangeList::default();
    ch.set(1, 10, 11);
    ch.set(2, 20, 21);
    let undone = ch.undo().unwrap();
    assert_eq!((undone.offset, undone.old, undone.new), (2, 20, 21));
    let redone = ch.redo().unwrap();
    assert_eq!((redone.offset, redone.old, redone.new), (2, 20, 21));
    assert!(ch.redo().is_none());
    assert_eq!(ch.get().len(), 2);
    assert_eq!(ch.last(2), Some(21));
    assert_eq!(ch.last(3), None);
}

#[test]
fn changes_new_change_drops_redo_tail() {
    let mut ch = ChangeList::default();
    ch.set(1, 0, 1);
    ch.set(2, 0, 2);
    ch.undo();
    ch.set(3, 0, 3);
    assert!(ch.redo().is_none());
    let real = ch.get();
    assert_eq!(real.len(), 2);
    assert_eq!(real.get(&3), Some(&3));
    assert_eq!(real.get(&2), None);
}

#[test]
fn buffer_mirrors_change_list() {
    let mut buf = Buffer::new();
    buf.add(5, 1, 2);
    buf.add(5, 2, 1);
    assert_eq!(buf.get().len(), 0);
    buf.add(6, 1, 2);
    assert_eq!(buf.get().get(&6), Some(&2));
    let c = buf.undo().unwrap();
    assert_eq!((c.offset, c.old, c.new), (6, 1, 2));
    buf.reset();
    assert!(buf.undo().is_none());
}

#[test]
fn changes_set_after_undoing_everything_drops_tail() {
    let mut ch = ChangeList::default();
    ch.set(1, 0, 5);
    ch.undo();
    ch.set(2, 0, 7);
    let real = ch.get();
    assert_eq!(real.len(), 1);
    assert_eq!(real.get(&2), Some(&7));
    assert!(ch.redo().is_none());
}

#[test]
fn changes_set_does_not_merge_into_undone_change() {
    let mut ch = ChangeList::default();
    ch.set(1, 0, 5);
    ch.undo();
    ch.set(1, 0, 7);
    let real = ch.get();
    assert_eq!(real.len(), 1);
    assert_eq!(real.get(&1), Some(&7));
    assert!(ch.redo().is_none());
}

#[test]
fn buffer_add_after_undo_drops_tail() {
    let mut buf = Buffer::new();
    buf.add(1, 0, 5);
    buf.undo();
    buf.add(2, 0, 7);
    let real = buf.get();
    assert_eq!(real.len(), 1);
    assert_eq!(real.get(&2), Some(&7));
    assert!(buf.redo().is_none());
}
