use masonry::child_ids::ChildIds;
use masonry::widget_id::WidgetId;

#[test]
fn new_list_is_empty() {
    let ids = ChildIds::new();
    assert_eq!(ids.len(), 0);
    assert_eq!(ids.to_vec(), Vec::<WidgetId>::new());
}

#[test]
fn single_holds_one_identifier() {
    let ids = ChildIds::single(WidgetId::from_raw(42));
    assert_eq!(ids.len(), 1);
    assert_eq!(ids.to_vec(), vec![WidgetId::from_raw(42)]);
}

#[test]
fn push_keeps_the_order() {
    let mut ids = ChildIds::new();
    for raw in [5u64, 3, 9, 3] {
        ids.push(WidgetId::from_raw(raw));
    }
    assert_eq!(ids.len(), 4);
    let raws: Vec<u64> = ids.to_vec().iter().map(|id| id.to_raw()).collect();
    assert_eq!(raws, vec![5, 3, 9, 3]);
}

#[test]
fn list_grows_past_its_inline_room() {
    let mut ids = ChildIds::new();
    for raw in 1..=40u64 {
        ids.push(WidgetId::from_raw(raw));
    }
    assert_eq!(ids.len(), 40);
    let raws: Vec<u64> = ids.to_vec().iter().map(|id| id.to_raw()).collect();
    assert_eq!(raws, (1..=40u64).collect::<Vec<u64>>());
}

#[test]
fn widget_id_round_trips_through_its_key() {
    assert_eq!(WidgetId::from_raw(17).to_raw(), 17);
    assert_eq!(WidgetId::from_raw(u64::MAX).to_raw(), u64::MAX);
    assert_eq!(WidgetId::from_raw(17), WidgetId(17));
    assert_ne!(WidgetId::from_raw(17), WidgetId::from_raw(18));
}

#[test]
fn try_push_adds_where_there_is_room() {
    let mut ids = ChildIds::new();
    assert!(ids.try_push(WidgetId::from_raw(8)));
    assert!(ids.try_push(WidgetId::from_raw(6)));
    assert_eq!(ids.to_vec(), vec![WidgetId::from_raw(8), WidgetId::from_raw(6)]);
}
