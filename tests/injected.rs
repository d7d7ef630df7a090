use injectiny::Injected;

#[test]
fn from_populates_the_slot() {
    let slot = Injected::from(25u32);
    assert!(slot.is_injected());
    assert_eq!(*slot.get(), 25);
}

#[test]
fn default_slot_is_empty() {
    let slot: Injected<String> = Default::default();
    assert!(!slot.is_injected());
}

#[test]
fn later_value_replaces_earlier() {
    let mut slot = Injected::from(String::from("first"));
    slot = Injected::from(String::from("second"));
    assert_eq!(slot.get().as_str(), "second");
}

#[test]
fn get_mut_changes_the_value_in_place() {
    let mut slot = Injected::from(vec![1u8]);
    slot.get_mut().push(2);
    assert!(slot.is_injected());
    assert_eq!(slot.get(), &vec![1u8, 2]);
}
