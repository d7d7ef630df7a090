use std::cell::Cell;

use injectiny::{Injectable, Injected, Injector};

#[derive(Clone, Debug, PartialEq)]
enum Model {
    Name(String),
    Age(u32),
    Other(u8),
}

#[derive(Default)]
struct Holder {
    name: Injected<String>,
    age: Injected<u32>,
}

impl Injectable<Model> for Holder {
    fn inject(&mut self, value: Model) {
        match value {
            Model::Name(v) => self.name = Injected::from(v),
            Model::Age(v) => self.age = Injected::from(v),
            _ => {}
        }
    }
}

#[test]
fn new_injector_is_empty() {
    let injector: Injector<Model, &dyn Fn() -> Model, Holder> = Injector::new();
    assert!(injector.targets().is_empty());
}

#[test]
fn target_receives_earlier_producers_on_registration() {
    let name: &dyn Fn() -> Model = &|| Model::Name(String::from("Patje"));
    let age: &dyn Fn() -> Model = &|| Model::Age(25);
    let injector = Injector::new().inject(name).inject(age).to(Holder::default());
    let targets = injector.into_targets();
    assert_eq!(targets.len(), 1);
    assert_eq!(targets[0].name.get().as_str(), "Patje");
    assert_eq!(*targets[0].age.get(), 25);
}

#[test]
fn producer_reaches_earlier_targets_on_registration() {
    let age: &dyn Fn() -> Model = &|| Model::Age(7);
    let injector: Injector<Model, &dyn Fn() -> Model, Holder> =
        Injector::new().to(Holder::default()).to(Holder::default());
    assert!(!injector.targets()[0].age.is_injected());
    let injector = injector.inject(age);
    assert_eq!(*injector.targets()[0].age.get(), 7);
    assert_eq!(*injector.targets()[1].age.get(), 7);
    assert!(!injector.targets()[1].name.is_injected());
}

#[test]
fn producers_are_called_again_for_each_later_target() {
    let calls_x = Cell::new(0u32);
    let calls_y = Cell::new(0u32);
    let early: &dyn Fn() -> Model = &|| {
        calls_x.set(calls_x.get() + 1);
        Model::Name(format!("name{}", calls_x.get()))
    };
    let late: &dyn Fn() -> Model = &|| {
        calls_y.set(calls_y.get() + 1);
        Model::Age(30 + calls_y.get())
    };
    let injector: Injector<Model, &dyn Fn() -> Model, Holder> = Injector::new().inject(early);
    assert_eq!(calls_x.get(), 0);
    let injector = injector.to(Holder::default());
    assert_eq!(calls_x.get(), 1);
    assert_eq!(injector.targets()[0].name.get().as_str(), "name1");
    let injector = injector.inject(late);
    assert_eq!(calls_y.get(), 1);
    assert_eq!(*injector.targets()[0].age.get(), 31);
    let injector = injector.to(Holder::default());
    assert_eq!(calls_x.get(), 2);
    assert_eq!(calls_y.get(), 2);
    assert_eq!(injector.targets()[1].name.get().as_str(), "name2");
    assert_eq!(*injector.targets()[1].age.get(), 32);
    assert_eq!(injector.targets()[0].name.get().as_str(), "name1");
}

#[test]
fn unbound_variant_is_ignored() {
    let other: &dyn Fn() -> Model = &|| Model::Other(1);
    let injector = Injector::new().inject(other).to(Holder::default());
    assert!(!injector.targets()[0].name.is_injected());
    assert!(!injector.targets()[0].age.is_injected());
}

#[test]
fn injecting_bound_variant_populates_its_field_only() {
    let mut h = Holder::default();
    h.inject(Model::Age(25));
    assert_eq!(*h.age.get(), 25);
    assert!(!h.name.is_injected());
    h.inject(Model::Name(String::from("Patje")));
    assert_eq!(h.name.get().as_str(), "Patje");
    assert_eq!(*h.age.get(), 25);
}

#[test]
fn second_injection_of_a_variant_wins() {
    let mut h = Holder::default();
    h.inject(Model::Age(1));
    h.inject(Model::Age(2));
    assert_eq!(*h.age.get(), 2);
}

#[test]
fn later_producer_wins_for_every_target() {
    let first: &dyn Fn() -> u32 = &|| 1;
    let second: &dyn Fn() -> u32 = &|| 2;
    let injector: Injector<u32, &dyn Fn() -> u32, Injected<u32>> = Injector::new()
        .to(Injected::default())
        .inject(first)
        .to(Injected::default())
        .inject(second)
        .to(Injected::default());
    let targets = injector.into_targets();
    assert_eq!(targets.len(), 3);
    for t in targets.iter() {
        assert_eq!(*t.get(), 2);
    }
}

#[test]
fn slot_as_target_keeps_the_last_value() {
    let mut slot: Injected<u32> = Injected::default();
    slot.inject(5);
    slot.inject(6);
    assert_eq!(*slot.get(), 6);
}
