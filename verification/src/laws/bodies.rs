//! Laws of the lookups of bodies and observatories.

use assist_rs::AssistData;
use vstd::prelude::*;

use crate::bodies::{
    body_outcome, findable, may_find, may_observe, may_position, may_stop, observer_outcome,
    positions_outcome,
};
use crate::engine::{located, same_reply, AssistOrigin, BodyState, Reply};
use crate::laws::constancy::locates_once;
use crate::propagator::AssistPropagator;
use crate::text::{ascii_lower, ascii_lowercase};
use crate::types::{ErrorView, Frame, ObserverState, Origin};

verus! {

/// Observers come out in the order of their codes, one for each. Their states
/// are heliocentric and ecliptic, without a covariance.
pub proof fn observers_follow_codes<
    D,
    T,
    L: Fn(&D, &AssistOrigin, &[T], Option<usize>) -> Reply<BodyState<T>>,
>(
    p: AssistPropagator<T, D>,
    codes: Seq<String>,
    epochs: Seq<T>,
    locate: L,
    found: Seq<ObserverState<T>>,
)
    requires
        may_observe(p, codes, epochs, locate, Ok(found)),
    ensures
        codes.len() == epochs.len(),
        found.len() == codes.len(),
        forall|i: int|
            0 <= i < codes.len() ==> {
                &&& (#[trigger] found[i]).code == codes[i]
                &&& found[i].state.frame == Frame::EclipticJ2000
                &&& found[i].state.origin == Origin::Sun
                &&& found[i].state.covariance is None
            },
{
    assert forall|i: int| 0 <= i < codes.len() implies {
        &&& (#[trigger] found[i]).code == codes[i]
        &&& found[i].state.frame == Frame::EclipticJ2000
        &&& found[i].state.origin == Origin::Sun
        &&& found[i].state.covariance is None
    } by {
        assert(may_find(p, codes[i], epochs[i], locate, Ok(found[i])));
    }
}

/// Positions come one for each epoch.
pub proof fn positions_follow_epochs<
    D,
    T,
    L: Fn(&D, &AssistOrigin, &[T], Option<usize>) -> Reply<BodyState<T>>,
>(
    p: AssistPropagator<T, D>,
    body: Seq<char>,
    name: Seq<char>,
    epochs: Seq<T>,
    locate: L,
    out: Seq<[T; 3]>,
)
    requires
        may_position(p, body, name, epochs, locate, Ok(out)),
    ensures
        out.len() == epochs.len(),
{
}

/// The case of a name does not matter: two names with one lower-case form,
/// `name`, may give the same positions, and no others. (Their errors quote the
/// name as it was given.)
pub proof fn case_of_a_name_is_ignored<
    D,
    T,
    L: Fn(&D, &AssistOrigin, &[T], Option<usize>) -> Reply<BodyState<T>>,
>(
    p: AssistPropagator<T, D>,
    one: Seq<char>,
    other: Seq<char>,
    name: Seq<char>,
    epochs: Seq<T>,
    locate: L,
    out: Seq<[T; 3]>,
)
    requires
        may_position(p, one, name, epochs, locate, Ok(out)),
    ensures
        may_position(p, other, name, epochs, locate, Ok(out)),
{
    let o = body_outcome(name)->Ok_0;
    let reply = choose|reply: Reply<BodyState<T>>| #[trigger]
        located(locate, p.data, o, epochs, Some(epochs.len() as usize), reply) && Ok::<
            Seq<[T; 3]>,
            ErrorView,
        >(out) == positions_outcome(one, epochs.len(), reply);
    assert(positions_outcome(other, epochs.len(), reply) == positions_outcome(
        one,
        epochs.len(),
        reply,
    ));
    assert(located(locate, p.data, o, epochs, Some(epochs.len() as usize), reply));
}

/// Two names with one lower-case form give one result where the engine has one
/// answer to each question: the same positions, or an error for both.
pub proof fn names_that_differ_in_case_agree<
    D,
    T,
    L: Fn(&D, &AssistOrigin, &[T], Option<usize>) -> Reply<BodyState<T>>,
>(
    p: AssistPropagator<T, D>,
    one: Seq<char>,
    other: Seq<char>,
    name: Seq<char>,
    epochs: Seq<T>,
    locate: L,
    a: Result<Seq<[T; 3]>, ErrorView>,
    b: Result<Seq<[T; 3]>, ErrorView>,
)
    requires
        locates_once(locate, p.data),
        may_position(p, one, name, epochs, locate, a),
        may_position(p, other, name, epochs, locate, b),
    ensures
        a is Ok <==> b is Ok,
        a is Ok ==> a == b,
{
    if let Ok(o) = body_outcome(name) {
        let u = choose|reply: Reply<BodyState<T>>| #[trigger]
            located(locate, p.data, o, epochs, Some(epochs.len() as usize), reply) && a
                == positions_outcome(one, epochs.len(), reply);
        let v = choose|reply: Reply<BodyState<T>>| #[trigger]
            located(locate, p.data, o, epochs, Some(epochs.len() as usize), reply) && b
                == positions_outcome(other, epochs.len(), reply);
        assert(same_reply(u, v));
        if a is Ok {
            assert(a->Ok_0 =~= b->Ok_0);
        }
    }
}

/// The engine locates no observatory by code in data without a table.
pub open spec fn needs_table<
    T,
    L: Fn(&AssistData, &AssistOrigin, &[T], Option<usize>) -> Reply<BodyState<T>>,
>(locate: L) -> bool {
    forall|
        data: AssistData,
        code: String,
        epochs: Seq<T>,
        threads: Option<usize>,
        reply: Reply<BodyState<T>>,
    |
        data.observatory is None && epochs.len() > 0 && #[trigger] located(
            locate,
            data,
            AssistOrigin::Observatory(code),
            epochs,
            threads,
            reply,
        ) ==> reply is Err
}

/// Until an observatory table is attached, lookups by code fail.
pub proof fn no_observers_without_a_table<
    T,
    L: Fn(&AssistData, &AssistOrigin, &[T], Option<usize>) -> Reply<BodyState<T>>,
>(
    p: AssistPropagator<T>,
    codes: Seq<String>,
    epochs: Seq<T>,
    locate: L,
    out: Result<Seq<ObserverState<T>>, ErrorView>,
)
    requires
        needs_table(locate),
        p.data.observatory is None,
        codes.len() == epochs.len(),
        codes.len() > 0,
        may_observe(p, codes, epochs, locate, out),
    ensures
        out matches Err(ErrorView::InvalidObserver(_)),
{
    match out {
        Ok(found) => {
            assert(may_find(p, codes[0], epochs[0], locate, Ok(found[0])));
        },
        Err(e) => {
            failed_lookup_is_an_invalid_observer(p, codes, epochs, locate, e);
        },
    }
}

/// With a code for each epoch, a failed lookup of observers is reported as an
/// invalid observer.
pub proof fn failed_lookup_is_an_invalid_observer<
    D,
    T,
    L: Fn(&D, &AssistOrigin, &[T], Option<usize>) -> Reply<BodyState<T>>,
>(
    p: AssistPropagator<T, D>,
    codes: Seq<String>,
    epochs: Seq<T>,
    locate: L,
    e: ErrorView,
)
    requires
        codes.len() == epochs.len(),
        may_observe(p, codes, epochs, locate, Err(e)),
    ensures
        e is InvalidObserver,
{
    let i = choose|i: int|
        0 <= i < codes.len() && #[trigger] may_stop(p, codes, epochs, locate, i, e);
    assert(may_find(p, codes[i], epochs[i], locate, Err(e)));
}

/// Lowering the case of a name twice is lowering it once.
pub proof fn lower_case_of_lower_case(name: Seq<char>)
    ensures
        ascii_lowercase(ascii_lowercase(name)) == ascii_lowercase(name),
{
    assert forall|c: char| #[trigger] ascii_lower(ascii_lower(c)) == ascii_lower(c) by {}
    assert(ascii_lowercase(ascii_lowercase(name)) =~= ascii_lowercase(name));
}

/// An engine with one answer to each question finds an observatory in one way.
proof fn lemma_found_once<
    D,
    T,
    L: Fn(&D, &AssistOrigin, &[T], Option<usize>) -> Reply<BodyState<T>>,
>(
    p: AssistPropagator<T, D>,
    code: String,
    epoch: T,
    locate: L,
    x: Result<ObserverState<T>, ErrorView>,
    y: Result<ObserverState<T>, ErrorView>,
)
    requires
        locates_once(locate, p.data),
        may_find(p, code, epoch, locate, x),
        may_find(p, code, epoch, locate, y),
    ensures
        x == y,
{
    let o = AssistOrigin::Observatory(code);
    let u = choose|reply: Reply<BodyState<T>>| #[trigger]
        located(locate, p.data, o, seq![epoch], Some(1usize), reply) && x == observer_outcome(
            code,
            reply,
        );
    let v = choose|reply: Reply<BodyState<T>>| #[trigger]
        located(locate, p.data, o, seq![epoch], Some(1usize), reply) && y == observer_outcome(
            code,
            reply,
        );
    assert(same_reply(u, v));
}

/// An engine with one answer to each question settles a list of observers.
proof fn lemma_observed_once<
    D,
    T,
    L: Fn(&D, &AssistOrigin, &[T], Option<usize>) -> Reply<BodyState<T>>,
>(
    p: AssistPropagator<T, D>,
    codes: Seq<String>,
    epochs: Seq<T>,
    locate: L,
    x: Result<Seq<ObserverState<T>>, ErrorView>,
    y: Result<Seq<ObserverState<T>>, ErrorView>,
)
    requires
        locates_once(locate, p.data),
        may_observe(p, codes, epochs, locate, x),
        may_observe(p, codes, epochs, locate, y),
    ensures
        x == y,
{
    if codes.len() == epochs.len() {
        match (x, y) {
            (Ok(a), Ok(b)) => {
                assert forall|i: int| 0 <= i < a.len() implies a[i] == b[i] by {
                    assert(may_find(p, codes[i], epochs[i], locate, Ok(a[i])));
                    assert(may_find(p, codes[i], epochs[i], locate, Ok(b[i])));
                    lemma_found_once(p, codes[i], epochs[i], locate, Ok(a[i]), Ok(b[i]));
                }
                assert(a =~= b);
            },
            (Ok(a), Err(e)) => {
                let i = choose|i: int|
                    0 <= i < codes.len() && #[trigger] may_stop(p, codes, epochs, locate, i, e);
                assert(may_find(p, codes[i], epochs[i], locate, Ok(a[i])));
                lemma_found_once(p, codes[i], epochs[i], locate, Ok(a[i]), Err(e));
            },
            (Err(e), Ok(a)) => {
                let i = choose|i: int|
                    0 <= i < codes.len() && #[trigger] may_stop(p, codes, epochs, locate, i, e);
                assert(may_find(p, codes[i], epochs[i], locate, Ok(a[i])));
                lemma_found_once(p, codes[i], epochs[i], locate, Ok(a[i]), Err(e));
            },
            (Err(e), Err(f)) => {
                let i = choose|i: int|
                    0 <= i < codes.len() && #[trigger] may_stop(p, codes, epochs, locate, i, e);
                let j = choose|j: int|
                    0 <= j < codes.len() && #[trigger] may_stop(p, codes, epochs, locate, j, f);
                if i < j {
                    assert(findable(p, codes[i], epochs[i], locate));
                    let o = choose|o: ObserverState<T>|
                        may_find(p, codes[i], epochs[i], locate, Ok(o));
                    lemma_found_once(p, codes[i], epochs[i], locate, Ok(o), Err(e));
                } else if j < i {
                    assert(findable(p, codes[j], epochs[j], locate));
                    let o = choose|o: ObserverState<T>|
                        may_find(p, codes[j], epochs[j], locate, Ok(o));
                    lemma_found_once(p, codes[j], epochs[j], locate, Ok(o), Err(f));
                } else {
                    lemma_found_once(p, codes[i], epochs[i], locate, Err(e), Err(f));
                }
            },
        }
    }
}

/// What two requests give, one after the other.
pub open spec fn joined<V>(
    a: Result<Seq<V>, ErrorView>,
    b: Result<Seq<V>, ErrorView>,
) -> Result<Seq<V>, ErrorView> {
    match (a, b) {
        (Err(e), _) => Err(e),
        (Ok(_), Err(e)) => Err(e),
        (Ok(x), Ok(y)) => Ok(x + y),
    }
}

/// A request for two lists of observers, one behind the other, gives the two
/// results one behind the other, or the first error, which is an invalid
/// observer.
pub proof fn observers_of_joined_lists<
    D,
    T,
    L: Fn(&D, &AssistOrigin, &[T], Option<usize>) -> Reply<BodyState<T>>,
>(
    p: AssistPropagator<T, D>,
    codes: Seq<String>,
    epochs: Seq<T>,
    more_codes: Seq<String>,
    more_epochs: Seq<T>,
    locate: L,
    a: Result<Seq<ObserverState<T>>, ErrorView>,
    b: Result<Seq<ObserverState<T>>, ErrorView>,
    out: Result<Seq<ObserverState<T>>, ErrorView>,
)
    requires
        locates_once(locate, p.data),
        codes.len() == epochs.len(),
        more_codes.len() == more_epochs.len(),
        may_observe(p, codes, epochs, locate, a),
        may_observe(p, more_codes, more_epochs, locate, b),
        may_observe(p, codes + more_codes, epochs + more_epochs, locate, out),
    ensures
        out == joined(a, b),
        out matches Err(e) ==> e is InvalidObserver,
{
    let all = codes + more_codes;
    let times = epochs + more_epochs;
    let n = codes.len();
    match (a, b) {
        (Err(e), _) => {
            let i = choose|i: int|
                0 <= i < codes.len() && #[trigger] may_stop(p, codes, epochs, locate, i, e);
            assert forall|k: int| 0 <= k < i implies findable(p, #[trigger] all[k], times[k], locate)
                by {
                assert(findable(p, codes[k], epochs[k], locate));
            }
            assert(may_stop(p, all, times, locate, i, e));
        },
        (Ok(x), Err(e)) => {
            let i = choose|i: int|
                0 <= i < more_codes.len() && #[trigger] may_stop(
                    p,
                    more_codes,
                    more_epochs,
                    locate,
                    i,
                    e,
                );
            assert forall|k: int| 0 <= k < n + i implies findable(
                p,
                #[trigger] all[k],
                times[k],
                locate,
            ) by {
                if k < n {
                    assert(may_find(p, codes[k], epochs[k], locate, Ok(x[k])));
                } else {
                    assert(findable(p, more_codes[k - n], more_epochs[k - n], locate));
                }
            }
            assert(may_stop(p, all, times, locate, n + i, e));
        },
        (Ok(x), Ok(y)) => {
            assert forall|k: int| 0 <= k < all.len() implies may_find(
                p,
                #[trigger] all[k],
                times[k],
                locate,
                Ok((x + y)[k]),
            ) by {
                if k < n {
                    assert(may_find(p, codes[k], epochs[k], locate, Ok(x[k])));
                } else {
                    assert(may_find(
                        p,
                        more_codes[k - n],
                        more_epochs[k - n],
                        locate,
                        Ok(y[k - n]),
                    ));
                }
            }
        },
    }
    assert(may_observe(p, all, times, locate, joined(a, b)));
    lemma_observed_once(p, all, times, locate, out, joined(a, b));
    if let Err(e) = out {
        failed_lookup_is_an_invalid_observer(p, all, times, locate, e);
    }
}

} // verus!
