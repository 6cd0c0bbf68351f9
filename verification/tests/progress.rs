use mdmigrate::progress::{StatusPart, StatusReport};

#[test]
fn counters_start_at_zero() {
    let r = StatusReport::new(3, 10);
    assert_eq!(r.files, 0);
    assert_eq!(r.items, 0);
    assert_eq!(r.total_files, 3);
    assert_eq!(r.total_items, 10);
    assert_eq!(r.changed_items, 0);
    assert_eq!(r.last_file, "");
    assert_eq!(r.last_item, "");
}

#[test]
fn entering_files_and_items_counts_up() {
    let mut r = StatusReport::new(2, 4);
    r.enter_file(String::from("a.nix"));
    assert_eq!(r.files, 1);
    assert_eq!(r.last_file, "a.nix");
    r.enter_item(String::from("check 1/2 in a.nix"));
    r.enter_item(String::from("check 2/2 in a.nix"));
    assert_eq!(r.items, 2);
    assert_eq!(r.last_item, "check 2/2 in a.nix");
    r.update_item(String::from("old in a.nix"));
    assert_eq!(r.items, 2);
    assert_eq!(r.last_item, "old in a.nix");
    r.changed_item();
    assert_eq!(r.changed_items, 1);
    r.skip_items(2);
    assert_eq!(r.items, 4);
}

#[test]
fn part_reconciles_unprocessed_items() {
    let mut r = StatusReport::new(1, 5);
    let mut p = StatusPart::new(5);
    p.enter_item(&mut r, String::from("one"));
    p.enter_item(&mut r, String::from("two"));
    p.changed_item(&mut r);
    assert_eq!(p.remaining, 3);
    assert_eq!(r.items, 2);
    assert_eq!(r.changed_items, 1);
    p.finish(&mut r);
    assert_eq!(r.items, 5);
}
