//! Fanning values out from producers to targets.
use vstd::prelude::*;

verus! {

/// A data-holder that accepts values of the tagged union `T`: each value's
/// payload goes into the field bound to its variant, if there is one, and a
/// value of a variant that no field is bound to is ignored.
pub trait Injectable<T: Clone>: Sized {
    /// `after` is this data-holder once `value` was routed into it. An
    /// implementation states what that means for its fields; one that states
    /// nothing is taken to allow any outcome.
    open spec fn injected_into(self, value: T, after: Self) -> bool {
        true
    }

    fn inject(&mut self, value: T)
        ensures
            old(self).injected_into(value, *final(self)),
    ;
}

/// `after` is `before` once a value that a call of `producer` returned was
/// injected into it.
pub open spec fn received_from<T: Clone, F: Fn() -> T, X: Injectable<T>>(producer: F, before: X, after: X) -> bool {
    exists|v: T| call_ensures(producer, (), v) && #[trigger] before.injected_into(v, after)
}

/// `states` are the successive states of a data-holder that started as
/// `states[0]` and was given the `values`, in order.
pub open spec fn received_in_order<T: Clone, X: Injectable<T>>(values: Seq<T>, states: Seq<X>) -> bool {
    &&& states.len() == values.len() + 1
    &&& forall|k: int| 0 <= k < values.len() ==> (#[trigger] states[k]).injected_into(values[k], states[k + 1])
}

/// `values[j]` is a value that a call of `producers[j]` may return, for each `j`.
pub open spec fn produced_by<T, F: Fn() -> T>(producers: Seq<F>, values: Seq<T>) -> bool {
    &&& values.len() == producers.len()
    &&& forall|j: int| 0 <= j < values.len() ==> call_ensures(producers[j], (), #[trigger] values[j])
}

/// `joined` is `target` once one value of a new call of each of `producers`
/// was injected into it, in order of the producers.
pub open spec fn caught_up<T: Clone, F: Fn() -> T, X: Injectable<T>>(producers: Seq<F>, target: X, joined: X) -> bool {
    exists|values: Seq<T>, states: Seq<X>|
        {
            &&& produced_by(producers, values)
            &&& #[trigger] received_in_order(values, states)
            &&& states[0] == target
            &&& states.last() == joined
        }
}

/// Registers producers of values and targets for them. A new producer is
/// called once for each target already registered; a new target receives one
/// value of each producer already registered. Producers are called anew on
/// every such occasion: their results are not kept. Targets of several types
/// are registered through one type that holds any of them.
pub struct Injector<T, F, X> {
    factories: Vec<F>,
    targets: Vec<X>,
    marker: std::marker::PhantomData<T>,
}

impl<T: Clone, F: Fn() -> T, X: Injectable<T>> Injector<T, F, X> {
    /// The producers, in order of registration.
    pub closed spec fn producers(&self) -> Seq<F> {
        self.factories@
    }

    /// The targets, in order of registration.
    pub closed spec fn target_seq(&self) -> Seq<X> {
        self.targets@
    }

    /// Every producer can be called.
    pub open spec fn callable(&self) -> bool {
        forall|j: int| 0 <= j < self.producers().len() ==> call_requires(#[trigger] self.producers()[j], ())
    }

    /// `r` is this injector once `factory` was registered: every target
    /// received a value of a call of `factory`, and stays at its place.
    pub open spec fn registered_producer(&self, factory: F, r: &Self) -> bool {
        &&& r.producers() == self.producers().push(factory)
        &&& r.target_seq().len() == self.target_seq().len()
        &&& forall|i: int|
            0 <= i < self.target_seq().len() ==> received_from(
                factory,
                self.target_seq()[i],
                #[trigger] r.target_seq()[i],
            )
    }

    /// `r` is this injector once `target` was registered: the earlier targets
    /// are as they were, and `target`, caught up with every producer, comes last.
    pub open spec fn registered_target(&self, target: X, r: &Self) -> bool {
        &&& r.producers() == self.producers()
        &&& r.target_seq().len() == self.target_seq().len() + 1
        &&& r.target_seq().drop_last() == self.target_seq()
        &&& caught_up(self.producers(), target, r.target_seq().last())
    }

    /// An injector with no producers and no targets.
    pub fn new() -> (r: Self)
        ensures
            r.producers() == Seq::<F>::empty(),
            r.target_seq() == Seq::<X>::empty(),
    {
        Injector { factories: Vec::new(), targets: Vec::new(), marker: std::marker::PhantomData }
    }

    /// Registers `factory`, and injects a value from a new call of it into
    /// every target registered so far, in order of registration.
    pub fn inject(self, factory: F) -> (r: Self)
        requires
            self.callable(),
            call_requires(factory, ()),
        ensures
            r.callable(),
            self.registered_producer(factory, &r),
    {
        let Injector { factories, targets, .. } = self;
        let mut factories = factories;
        let mut targets = targets;
        let ghost before = targets@;
        let mut i: usize = 0;
        while i < targets.len()
            invariant
                0 <= i <= targets@.len(),
                targets@.len() == before.len(),
                call_requires(factory, ()),
                forall|j: int| i <= j < before.len() ==> #[trigger] targets@[j] == before[j],
                forall|j: int| 0 <= j < i ==> received_from(factory, before[j], #[trigger] targets@[j]),
            decreases before.len() - i,
        {
            let v = factory();
            let ghost prev = targets@;
            targets[i].inject(v);
            proof {
                assert(before[i as int].injected_into(v, targets@[i as int]));
                assert forall|j: int| 0 <= j < i + 1 implies received_from(
                    factory,
                    before[j],
                    #[trigger] targets@[j],
                ) by {
                    if j < i {
                        assert(targets@[j] == prev[j]);
                    }
                }
            }
            i += 1;
        }
        factories.push(factory);
        assert forall|j: int| 0 <= j < factories@.len() implies call_requires(#[trigger] factories@[j], ()) by {
            if j < self.producers().len() {
                assert(call_requires(self.producers()[j], ()));
            }
        }
        Injector { factories, targets, marker: std::marker::PhantomData }
    }

    /// Registers `target`, after injecting into it a value from a new call of
    /// every producer registered so far, in order of registration.
    pub fn to(self, target: X) -> (r: Self)
        requires
            self.callable(),
        ensures
            r.callable(),
            self.registered_target(target, &r),
    {
        let mut current = target;
        let ghost mut values: Seq<T> = Seq::empty();
        let ghost mut states: Seq<X> = seq![target];
        let mut j: usize = 0;
        while j < self.factories.len()
            invariant
                0 <= j <= self.factories@.len(),
                self.callable(),
                values.len() == j,
                forall|k: int| 0 <= k < j ==> call_ensures(self.factories@[k], (), #[trigger] values[k]),
                received_in_order(values, states),
                states[0] == target,
                states.last() == current,
            decreases self.factories.len() - j,
        {
            assert(call_requires(self.producers()[j as int], ()));
            let v = (self.factories[j])();
            let ghost prev_states = states;
            current.inject(v);
            proof {
                values = values.push(v);
                states = states.push(current);
                assert forall|k: int| 0 <= k < values.len() implies (#[trigger] states[k]).injected_into(
                    values[k],
                    states[k + 1],
                ) by {
                    if k < values.len() - 1 {
                        assert(states[k] == prev_states[k]);
                        assert(states[k + 1] == prev_states[k + 1]);
                    }
                }
            }
            j += 1;
        }
        assert(produced_by(self.producers(), values));
        let mut targets = self.targets;
        let ghost before = targets@;
        targets.push(current);
        assert(targets@.drop_last() =~= before);
        Injector { factories: self.factories, targets, marker: std::marker::PhantomData }
    }

    /// The targets, in order of registration.
    pub fn targets(&self) -> (r: &Vec<X>)
        ensures
            r@ == self.target_seq(),
    {
        &self.targets
    }

    /// Gives the targets back, in order of registration.
    pub fn into_targets(self) -> (r: Vec<X>)
        ensures
            r@ == self.target_seq(),
    {
        self.targets
    }
}

/// Registering producer `early`, then target `t`, then producer `late`, then
/// target `u`: `t` receives a value of `early` when it is registered and a
/// value of `late` when `late` is; `u`, when it is registered, receives a value
/// of a new call of `early` and then one of `late`, while `t` stays as it was.
pub proof fn lemma_late_registration<T: Clone, F: Fn() -> T, X: Injectable<T>>(
    s0: Injector<T, F, X>,
    s1: Injector<T, F, X>,
    s2: Injector<T, F, X>,
    s3: Injector<T, F, X>,
    s4: Injector<T, F, X>,
    early: F,
    late: F,
    t: X,
    u: X,
)
    requires
        s0.producers() == Seq::<F>::empty(),
        s0.target_seq() == Seq::<X>::empty(),
        s0.registered_producer(early, &s1),
        s1.registered_target(t, &s2),
        s2.registered_producer(late, &s3),
        s3.registered_target(u, &s4),
    ensures
        s2.target_seq().len() == 1,
        received_from(early, t, s2.target_seq()[0]),
        s3.target_seq().len() == 1,
        received_from(late, s2.target_seq()[0], s3.target_seq()[0]),
        s4.target_seq().len() == 2,
        s4.target_seq()[0] == s3.target_seq()[0],
        exists|a: X| received_from(early, u, a) && #[trigger] received_from(late, a, s4.target_seq()[1]),
{
    assert(s1.target_seq() =~= Seq::<X>::empty());
    assert(s1.producers() =~= seq![early]);
    let (vs, ss) = choose|vs: Seq<T>, ss: Seq<X>|
        {
            &&& produced_by(s1.producers(), vs)
            &&& #[trigger] received_in_order(vs, ss)
            &&& ss[0] == t
            &&& ss.last() == s2.target_seq().last()
        };
    assert(ss[0].injected_into(vs[0], ss[1]));
    assert(call_ensures(early, (), vs[0]));
    assert(s2.target_seq()[0] == s2.target_seq().last());
    assert(received_from(early, t, s2.target_seq()[0]));
    assert(received_from(late, s2.target_seq()[0], s3.target_seq()[0]));
    assert(s3.producers() =~= seq![early, late]);
    let (ws, rs) = choose|ws: Seq<T>, rs: Seq<X>|
        {
            &&& produced_by(s3.producers(), ws)
            &&& #[trigger] received_in_order(ws, rs)
            &&& rs[0] == u
            &&& rs.last() == s4.target_seq().last()
        };
    assert(rs[0].injected_into(ws[0], rs[1]));
    assert(rs[1].injected_into(ws[1], rs[2]));
    assert(call_ensures(early, (), ws[0]));
    assert(call_ensures(late, (), ws[1]));
    assert(received_from(early, u, rs[1]));
    assert(received_from(late, rs[1], s4.target_seq()[1]));
    assert(s4.target_seq()[0] == s4.target_seq().drop_last()[0]);
}

} // verus!
