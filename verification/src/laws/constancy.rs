//! Engines that answer a question in one way only. Laws that relate two calls
//! are stated of them.

use vstd::prelude::*;

use crate::engine::{
    integrated, located, same_reply, sighted, AssistObserver, AssistOrbit, AssistOrigin, BodyState,
    IntegratedState, IntegratorConfig, Reply, Sighting,
};
use crate::propagator::AssistPropagator;

verus! {

/// `locate` has one answer to each question.
pub open spec fn locates_once<
    D,
    T,
    L: Fn(&D, &AssistOrigin, &[T], Option<usize>) -> Reply<BodyState<T>>,
>(locate: L, data: D) -> bool {
    forall|
        origin: AssistOrigin,
        epochs: Seq<T>,
        threads: Option<usize>,
        a: Reply<BodyState<T>>,
        b: Reply<BodyState<T>>,
    |
        #[trigger] located(locate, data, origin, epochs, threads, a) && #[trigger] located(
            locate,
            data,
            origin,
            epochs,
            threads,
            b,
        ) ==> same_reply(a, b)
}

/// `integrate` has one answer to each question about an orbit.
pub open spec fn integrates_once<
    D,
    T,
    I: Fn(&D, &AssistOrbit<T>, &[T], bool, &IntegratorConfig<T>) -> Reply<IntegratedState<T>>,
>(integrate: I, p: AssistPropagator<T, D>) -> bool {
    forall|
        orbit: AssistOrbit<T>,
        epochs: Seq<T>,
        stm: bool,
        a: Reply<IntegratedState<T>>,
        b: Reply<IntegratedState<T>>,
    |
        #[trigger] integrated(integrate, p.data, orbit, epochs, stm, p.integrator, a)
            && #[trigger] integrated(integrate, p.data, orbit, epochs, stm, p.integrator, b)
            ==> same_reply(a, b)
}

/// `observe` has one answer to each question about an orbit.
pub open spec fn sights_once<
    D,
    T,
    O: Fn(
        &D,
        &AssistOrbit<T>,
        &[AssistObserver<T>],
        Option<usize>,
        &IntegratorConfig<T>,
    ) -> Reply<Sighting<T>>,
>(observe: O, p: AssistPropagator<T, D>) -> bool {
    forall|
        orbit: AssistOrbit<T>,
        observers: Seq<AssistObserver<T>>,
        threads: Option<usize>,
        a: Reply<Sighting<T>>,
        b: Reply<Sighting<T>>,
    |
        #[trigger] sighted(observe, p.data, orbit, observers, threads, p.integrator, a)
            && #[trigger] sighted(observe, p.data, orbit, observers, threads, p.integrator, b)
            ==> same_reply(a, b)
}

} // verus!
