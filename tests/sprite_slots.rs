use fennec_gfx::sprite_list::SpriteList;

#[test]
fn removed_slot_is_reused_by_next_add() {
    let mut list: SpriteList<u32> = SpriteList::new(8);
    let a = list.add_sprite(10);
    let b = list.add_sprite(11);
    let c = list.add_sprite(12);
    assert_eq!((a.index(), b.index(), c.index()), (0, 1, 2));
    list.remove_sprite(b);
    let d = list.add_sprite(13);
    assert_eq!(d.index(), 1);
    list.remove_sprite(d);
    let e = list.add_sprite(14);
    assert_eq!(e.index(), 1);
    assert_eq!(list.slot_count(), 3);
}

#[test]
fn lowest_empty_slot_is_taken_first() {
    let mut list: SpriteList<u32> = SpriteList::new(8);
    let refs: Vec<_> = (0..5).map(|i| list.add_sprite(i)).collect();
    let mut refs = refs.into_iter();
    let _r0 = refs.next().unwrap();
    let r1 = refs.next().unwrap();
    let _r2 = refs.next().unwrap();
    let r3 = refs.next().unwrap();
    list.remove_sprite(r3);
    list.remove_sprite(r1);
    assert_eq!(list.add_sprite(7).index(), 1);
    assert_eq!(list.add_sprite(8).index(), 3);
    assert_eq!(list.add_sprite(9).index(), 5);
}

#[test]
fn full_list_has_no_free_slot_and_keeps_its_sprites() {
    let mut list: SpriteList<u32> = SpriteList::new(2);
    assert!(list.has_free_slot());
    let a = list.add_sprite(1);
    assert!(list.has_free_slot());
    let b = list.add_sprite(2);
    assert!(!list.has_free_slot());
    assert_eq!(list.slot_count(), 2);
    assert_eq!(list.sprite_actor(&a), Some(&1));
    assert_eq!(list.sprite_actor(&b), Some(&2));
    assert_eq!(list.max_sprites(), 2);
    list.remove_sprite(a);
    assert!(list.has_free_slot());
}

#[test]
fn marks_coalesce_into_one_range() {
    let mut list: SpriteList<u32> = SpriteList::new(16);
    for i in 0..10 {
        list.add_sprite(i);
    }
    assert_eq!(list.take_upload_range(), Some((0, 10)));
    list.mark_sprite_changed(2);
    assert_eq!(list.range_changed(), Some((2, 3)));
    list.mark_sprite_changed(7);
    assert_eq!(list.range_changed(), Some((2, 8)));
    list.mark_sprite_changed(4);
    assert_eq!(list.range_changed(), Some((2, 8)));
}

#[test]
fn changes_coalesce_into_one_range() {
    let mut list: SpriteList<u32> = SpriteList::new(16);
    let refs: Vec<_> = (0..10).map(|i| list.add_sprite(i)).collect();
    assert_eq!(list.take_upload_range(), Some((0, 10)));
    assert_eq!(list.take_upload_range(), None);
    list.change_sprite(&refs[2], |a| a + 100);
    list.change_sprite(&refs[7], |a| a + 100);
    assert_eq!(list.range_changed(), Some((2, 8)));
    let upload = list.take_upload_range();
    assert_eq!(upload, Some((2, 8)));
    let (start, end) = upload.unwrap();
    assert_eq!(end - start, 6);
    let uploaded: Vec<Option<u32>> = (start..end).map(|i| list.slot(i).copied()).collect();
    assert_eq!(uploaded, vec![Some(102), Some(3), Some(4), Some(5), Some(6), Some(107)]);
    assert_eq!(list.range_changed(), None);
}

#[test]
fn removal_widens_changed_range() {
    let mut list: SpriteList<u32> = SpriteList::new(16);
    let refs: Vec<_> = (0..6).map(|i| list.add_sprite(i)).collect();
    list.take_upload_range();
    let mut refs = refs.into_iter();
    let r0 = refs.next().unwrap();
    let r5 = refs.last().unwrap();
    list.remove_sprite(r5);
    assert_eq!(list.range_changed(), Some((5, 6)));
    list.remove_sprite(r0);
    assert_eq!(list.range_changed(), Some((0, 6)));
    assert_eq!(list.slot(5), None);
}

#[test]
fn change_replaces_only_its_slot() {
    let mut list: SpriteList<u32> = SpriteList::new(4);
    let a = list.add_sprite(1);
    let b = list.add_sprite(2);
    list.remove_sprite(a);
    list.take_upload_range();
    assert_eq!(list.slot(0), None);
    list.change_sprite(&b, |x| x * 10);
    assert_eq!(list.sprite_actor(&b), Some(&20));
    assert_eq!(list.slot(0), None);
    assert_eq!(list.range_changed(), Some((1, 2)));
}

#[test]
fn new_list_is_empty() {
    let list: SpriteList<u32> = SpriteList::new(3);
    assert_eq!(list.slot_count(), 0);
    assert_eq!(list.range_changed(), None);
}
