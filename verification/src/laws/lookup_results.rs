//! What the lookups hand to the engine, and what they make of the replies.

use vstd::prelude::*;

use crate::bodies::{
    body_named, findable, looked_up, may_center, may_find, may_observe, may_position, may_stop,
    observer_outcome, origin_outcome, positions_outcome,
};
use crate::constants::Constants;
use crate::engine::{located, AssistOrigin, BodyState, Reply};
use crate::linalg::Vec6;
use crate::propagator::AssistPropagator;
use crate::text::decimal_text;
use crate::types::{ErrorView, Frame, ObserverState, Origin};

verus! {

/// The engine's name for an origin other than the Sun.
pub open spec fn engine_origin(origin: Origin) -> AssistOrigin {
    if origin == Origin::Earth {
        AssistOrigin::Earth
    } else {
        AssistOrigin::SolarSystemBarycenter
    }
}

/// An origin was found at `v`. The Sun is at rest at zero. Any other origin is
/// where the engine has it: it was asked for that origin at that one epoch, on
/// one thread, and `v` holds the six components of the first state of its
/// reply.
pub open spec fn origin_is_the_reply<
    D,
    T,
    L: Fn(&D, &AssistOrigin, &[T], Option<usize>) -> Reply<BodyState<T>>,
>(data: D, zero: T, origin: Origin, epoch: T, locate: L, v: Vec6<T>) -> bool {
    if origin == Origin::Sun {
        forall|k: int| 0 <= k < 6 ==> #[trigger] v[k] == zero
    } else {
        exists|a: &AssistOrigin, e: &[T], reply: Vec<BodyState<T>>|
            {
                &&& #[trigger] locate.ensures((&data, a, e, Some(1usize)), Ok(reply))
                &&& *a == engine_origin(origin)
                &&& e@.len() == 1
                &&& e@[0] == epoch
                &&& reply@.len() > 0
                &&& forall|k: int| 0 <= k < 6 ==> #[trigger] v[k] == reply@[0].state[k]
            }
    }
}

/// An origin was not found. This is never the Sun. The engine failed, and the
/// message names the origin and carries its text, or it returned no state.
pub open spec fn origin_is_missing<
    D,
    T,
    L: Fn(&D, &AssistOrigin, &[T], Option<usize>) -> Reply<BodyState<T>>,
>(data: D, origin: Origin, epoch: T, locate: L, e: ErrorView) -> bool {
    let name = if origin == Origin::Earth {
        "Earth"@
    } else {
        "SolarSystemBarycenter"@
    };
    origin != Origin::Sun && exists|a: &AssistOrigin, s: &[T], reply: Reply<BodyState<T>>|
        {
            &&& #[trigger] locate.ensures((&data, a, s, Some(1usize)), reply)
            &&& *a == engine_origin(origin)
            &&& s@.len() == 1
            &&& s@[0] == epoch
            &&& match reply {
                Err(text) => e == ErrorView::Other(
                    "assist_get_state("@ + name + "): "@ + text@,
                ),
                Ok(found) => found@.len() == 0 && e == ErrorView::Other(
                    "no state returned for "@ + name,
                ),
            }
        }
}

/// What the lookup of an origin gives is what the engine replied: the six
/// components of its first state, or the error that it comes to.
pub proof fn origin_lookup_gives_the_reply<
    D,
    T,
    L: Fn(&D, &AssistOrigin, &[T], Option<usize>) -> Reply<BodyState<T>>,
>(
    p: AssistPropagator<T, D>,
    c: Constants<T>,
    origin: Origin,
    epoch: T,
    locate: L,
    out: Result<Vec6<T>, ErrorView>,
)
    requires
        may_center(p, c, origin, epoch, locate, out),
    ensures
        match out {
            Ok(v) => origin_is_the_reply(p.data, c.zero, origin, epoch, locate, v),
            Err(e) => origin_is_missing(p.data, origin, epoch, locate, e),
        },
{
    if origin != Origin::Sun {
        let a = looked_up(origin)->Some_0;
        let answer = choose|answer: Reply<BodyState<T>>| #[trigger]
            located(locate, p.data, a, seq![epoch], Some(1usize), answer) && out == origin_outcome(
                origin,
                answer,
            );
        let e = choose|e: &[T]|
            e@ == seq![epoch] && #[trigger] locate.ensures(
                (&p.data, &a, e, Some(1usize)),
                answer,
            );
        let asked = &a;
        assert(locate.ensures((&p.data, asked, e, Some(1usize)), answer));
        match answer {
            Ok(reply) => {
                assert(locate.ensures((&p.data, asked, e, Some(1usize)), Ok(reply)));
            },
            Err(_) => {},
        }
    }
}

/// One observatory was found: the engine was asked for its code at its epoch
/// alone, on one thread, and the observer holds the code and the first state
/// of the reply, component by component, in the ecliptic frame about the Sun.
pub open spec fn observer_is_the_reply<
    D,
    T,
    L: Fn(&D, &AssistOrigin, &[T], Option<usize>) -> Reply<BodyState<T>>,
>(data: D, code: String, epoch: T, locate: L, found: ObserverState<T>) -> bool {
    exists|a: &AssistOrigin, e: &[T], reply: Vec<BodyState<T>>|
        {
            &&& #[trigger] locate.ensures((&data, a, e, Some(1usize)), Ok(reply))
            &&& *a == AssistOrigin::Observatory(code)
            &&& e@.len() == 1
            &&& e@[0] == epoch
            &&& reply@.len() > 0
            &&& found.code == code
            &&& found.state.x == reply@[0].state[0]
            &&& found.state.y == reply@[0].state[1]
            &&& found.state.z == reply@[0].state[2]
            &&& found.state.vx == reply@[0].state[3]
            &&& found.state.vy == reply@[0].state[4]
            &&& found.state.vz == reply@[0].state[5]
            &&& found.state.epoch == reply@[0].epoch
            &&& found.state.frame == Frame::EclipticJ2000
            &&& found.state.origin == Origin::Sun
            &&& found.state.covariance is None
        }
}

/// The engine may have an observatory.
pub open spec fn observer_may_be_found<
    D,
    T,
    L: Fn(&D, &AssistOrigin, &[T], Option<usize>) -> Reply<BodyState<T>>,
>(data: D, code: String, epoch: T, locate: L) -> bool {
    exists|o: ObserverState<T>| #[trigger] observer_is_the_reply(data, code, epoch, locate, o)
}

/// One observatory was not found: the engine failed, and the message is the
/// code and the engine's text, or it returned no state.
pub open spec fn observer_is_missing<
    D,
    T,
    L: Fn(&D, &AssistOrigin, &[T], Option<usize>) -> Reply<BodyState<T>>,
>(data: D, code: String, epoch: T, locate: L, e: ErrorView) -> bool {
    exists|a: &AssistOrigin, s: &[T], reply: Reply<BodyState<T>>|
        {
            &&& #[trigger] locate.ensures((&data, a, s, Some(1usize)), reply)
            &&& *a == AssistOrigin::Observatory(code)
            &&& s@.len() == 1
            &&& s@[0] == epoch
            &&& match reply {
                Err(text) => e == ErrorView::InvalidObserver(code@ + ": "@ + text@),
                Ok(found) => found@.len() == 0 && e == ErrorView::InvalidObserver(
                    "no state for "@ + code@,
                ),
            }
        }
}

/// A lookup that found an observatory found what the engine replied.
proof fn lemma_found<
    D,
    T,
    L: Fn(&D, &AssistOrigin, &[T], Option<usize>) -> Reply<BodyState<T>>,
>(p: AssistPropagator<T, D>, code: String, epoch: T, locate: L, found: ObserverState<T>)
    requires
        may_find(p, code, epoch, locate, Ok(found)),
    ensures
        observer_is_the_reply(p.data, code, epoch, locate, found),
{
    let a = AssistOrigin::Observatory(code);
    let answer = choose|answer: Reply<BodyState<T>>| #[trigger]
        located(locate, p.data, a, seq![epoch], Some(1usize), answer) && Ok::<
            ObserverState<T>,
            ErrorView,
        >(found) == observer_outcome(code, answer);
    let e = choose|e: &[T]|
        e@ == seq![epoch] && #[trigger] locate.ensures((&p.data, &a, e, Some(1usize)), answer);
    let reply = answer->Ok_0;
    let asked = &a;
    assert(locate.ensures((&p.data, asked, e, Some(1usize)), Ok(reply)));
}

/// A lookup that missed an observatory says what the engine replied.
proof fn lemma_missed<
    D,
    T,
    L: Fn(&D, &AssistOrigin, &[T], Option<usize>) -> Reply<BodyState<T>>,
>(p: AssistPropagator<T, D>, code: String, epoch: T, locate: L, e: ErrorView)
    requires
        may_find(p, code, epoch, locate, Err(e)),
    ensures
        observer_is_missing(p.data, code, epoch, locate, e),
{
    let a = AssistOrigin::Observatory(code);
    let answer = choose|answer: Reply<BodyState<T>>| #[trigger]
        located(locate, p.data, a, seq![epoch], Some(1usize), answer) && Err::<
            ObserverState<T>,
            ErrorView,
        >(e) == observer_outcome(code, answer);
    let s = choose|s: &[T]|
        s@ == seq![epoch] && #[trigger] locate.ensures((&p.data, &a, s, Some(1usize)), answer);
    let asked = &a;
    assert(locate.ensures((&p.data, asked, s, Some(1usize)), answer));
}

/// Observer `i` is what the engine replied for code `i` at epoch `i`, and
/// there are as many as there are codes and epochs.
pub proof fn observers_hold_the_replies<
    D,
    T,
    L: Fn(&D, &AssistOrigin, &[T], Option<usize>) -> Reply<BodyState<T>>,
>(
    p: AssistPropagator<T, D>,
    codes: Seq<String>,
    epochs: Seq<T>,
    locate: L,
    found: Seq<ObserverState<T>>,
)
    requires
        may_observe(p, codes, epochs, locate, Ok(found)),
    ensures
        codes.len() == epochs.len(),
        found.len() == codes.len(),
        forall|i: int|
            0 <= i < found.len() ==> observer_is_the_reply(
                p.data,
                codes[i],
                epochs[i],
                locate,
                #[trigger] found[i],
            ),
{
    assert forall|i: int| 0 <= i < found.len() implies observer_is_the_reply(
        p.data,
        codes[i],
        epochs[i],
        locate,
        #[trigger] found[i],
    ) by {
        lemma_found(p, codes[i], epochs[i], locate, found[i]);
    }
}

/// A request for observers fails in one of two ways. Lists of different
/// lengths are refused, with both lengths in the message, before the engine is
/// asked. Otherwise some observatory is missing, all before it may be found,
/// and its error is returned.
pub proof fn first_missing_observer_is_reported<
    D,
    T,
    L: Fn(&D, &AssistOrigin, &[T], Option<usize>) -> Reply<BodyState<T>>,
>(p: AssistPropagator<T, D>, codes: Seq<String>, epochs: Seq<T>, locate: L, e: ErrorView)
    requires
        may_observe(p, codes, epochs, locate, Err(e)),
    ensures
        codes.len() != epochs.len() ==> e == ErrorView::Other(
            "compute_observers: codes.len()="@ + decimal_text(codes.len()) + " != epochs.len()="@
                + decimal_text(epochs.len()),
        ),
        codes.len() == epochs.len() ==> exists|i: int|
            {
                &&& 0 <= i < codes.len()
                &&& observer_is_missing(p.data, #[trigger] codes[i], epochs[i], locate, e)
                &&& forall|k: int|
                    0 <= k < i ==> observer_may_be_found(
                        p.data,
                        #[trigger] codes[k],
                        epochs[k],
                        locate,
                    )
            },
{
    if codes.len() == epochs.len() {
        let i = choose|i: int|
            0 <= i < codes.len() && #[trigger] may_stop(p, codes, epochs, locate, i, e);
        lemma_missed(p, codes[i], epochs[i], locate, e);
        assert forall|k: int| 0 <= k < i implies observer_may_be_found(
            p.data,
            #[trigger] codes[k],
            epochs[k],
            locate,
        ) by {
            assert(findable(p, codes[k], epochs[k], locate));
            let o = choose|o: ObserverState<T>| may_find(p, codes[k], epochs[k], locate, Ok(o));
            lemma_found(p, codes[k], epochs[k], locate, o);
        }
        assert(observer_is_missing(p.data, codes[i], epochs[i], locate, e));
    }
}

/// The body that a name stands for: the Sun, the Earth and the Moon
/// themselves, and the barycentre of every other planet's system.
pub open spec fn stands_for_body(name: Seq<char>, a: AssistOrigin) -> bool {
    ||| name == "sun"@ && a == AssistOrigin::Sun
    ||| name == "mercury"@ && a == AssistOrigin::MercuryBarycenter
    ||| name == "venus"@ && a == AssistOrigin::VenusBarycenter
    ||| name == "earth"@ && a == AssistOrigin::Earth
    ||| name == "moon"@ && a == AssistOrigin::Moon
    ||| name == "mars"@ && a == AssistOrigin::MarsBarycenter
    ||| name == "jupiter"@ && a == AssistOrigin::JupiterBarycenter
    ||| name == "saturn"@ && a == AssistOrigin::SaturnBarycenter
    ||| name == "uranus"@ && a == AssistOrigin::UranusBarycenter
    ||| name == "neptune"@ && a == AssistOrigin::NeptuneBarycenter
    ||| name == "pluto"@ && a == AssistOrigin::PlutoBarycenter
}

/// Position `i` holds the first three components of state `i` of the engine's
/// reply, for every epoch. The engine was asked for the named body at the
/// epochs as they were given, on as many threads as there are epochs.
///
/// Returns the reply.
pub proof fn positions_hold_the_reply<
    D,
    T,
    L: Fn(&D, &AssistOrigin, &[T], Option<usize>) -> Reply<BodyState<T>>,
>(
    p: AssistPropagator<T, D>,
    body: Seq<char>,
    name: Seq<char>,
    epochs: Seq<T>,
    locate: L,
    out: Seq<[T; 3]>,
) -> (reply: Vec<BodyState<T>>)
    requires
        may_position(p, body, name, epochs, locate, Ok(out)),
    ensures
        exists|a: &AssistOrigin, e: &[T]|
            {
                &&& #[trigger] locate.ensures(
                    (&p.data, a, e, Some(epochs.len() as usize)),
                    Ok(reply),
                )
                &&& stands_for_body(name, *a)
                &&& e@ == epochs
            },
        reply@.len() == epochs.len(),
        out.len() == epochs.len(),
        forall|i: int|
            0 <= i < out.len() ==> {
                let at = #[trigger] out[i];
                &&& at[0] == reply@[i].state[0]
                &&& at[1] == reply@[i].state[1]
                &&& at[2] == reply@[i].state[2]
            },
{
    let a = body_named(name)->Some_0;
    let threads = Some(epochs.len() as usize);
    let answer = choose|answer: Reply<BodyState<T>>| #[trigger]
        located(locate, p.data, a, epochs, threads, answer) && Ok::<Seq<[T; 3]>, ErrorView>(out)
            == positions_outcome(body, epochs.len(), answer);
    let e = choose|e: &[T]|
        e@ == epochs && #[trigger] locate.ensures((&p.data, &a, e, threads), answer);
    let reply = answer->Ok_0;
    let asked = &a;
    assert(locate.ensures((&p.data, asked, e, Some(epochs.len() as usize)), Ok(reply)));
    reply
}

/// A request for positions fails in one of three ways: the name stands for no
/// body; the engine fails, and its text is carried; or it does not return one
/// state for each epoch, and both numbers are in the message.
pub proof fn failed_request_for_positions<
    D,
    T,
    L: Fn(&D, &AssistOrigin, &[T], Option<usize>) -> Reply<BodyState<T>>,
>(
    p: AssistPropagator<T, D>,
    body: Seq<char>,
    name: Seq<char>,
    epochs: Seq<T>,
    locate: L,
    error: ErrorView,
)
    requires
        may_position(p, body, name, epochs, locate, Err(error)),
    ensures
        (forall|a: AssistOrigin| !#[trigger] stands_for_body(name, a)) ==> error
            == ErrorView::Other(
            "compute_body_positions: unknown body '"@ + name
                + "' (expected sun/mercury/venus/earth/moon/mars/jupiter/saturn/uranus/neptune/pluto)"@,
        ),
        (exists|a: AssistOrigin| #[trigger] stands_for_body(name, a)) ==> exists|
            a: &AssistOrigin,
            e: &[T],
            reply: Reply<BodyState<T>>,
        |
            {
                &&& #[trigger] locate.ensures(
                    (&p.data, a, e, Some(epochs.len() as usize)),
                    reply,
                )
                &&& stands_for_body(name, *a)
                &&& e@ == epochs
                &&& match reply {
                    Err(text) => error == ErrorView::Other(
                        "compute_body_positions("@ + body + "): "@ + text@,
                    ),
                    Ok(states) => states@.len() != epochs.len() && error == ErrorView::Other(
                        "compute_body_positions("@ + body + "): expected "@ + decimal_text(
                            epochs.len(),
                        ) + " states, got "@ + decimal_text(states@.len()),
                    ),
                }
            },
{
    match body_named(name) {
        Some(a) => {
            assert(stands_for_body(name, a));
            let threads = Some(epochs.len() as usize);
            let answer = choose|answer: Reply<BodyState<T>>| #[trigger]
                located(locate, p.data, a, epochs, threads, answer) && Err::<
                    Seq<[T; 3]>,
                    ErrorView,
                >(error) == positions_outcome(body, epochs.len(), answer);
            let e = choose|e: &[T]|
                e@ == epochs && #[trigger] locate.ensures((&p.data, &a, e, threads), answer);
            let asked = &a;
            assert(locate.ensures((&p.data, asked, e, Some(epochs.len() as usize)), answer));
        },
        None => {
            assert forall|a: AssistOrigin| !#[trigger] stands_for_body(name, a) by {}
        },
    }
}

/// `locate` answers each epoch on its own: the state that it returns for an
/// epoch is `at` of that epoch.
pub open spec fn answers_each_on_its_own<
    D,
    T,
    L: Fn(&D, &AssistOrigin, &[T], Option<usize>) -> Reply<BodyState<T>>,
>(locate: L, at: spec_fn(AssistOrigin, T) -> BodyState<T>) -> bool {
    forall|
        d: &D,
        a: &AssistOrigin,
        e: &[T],
        n: Option<usize>,
        v: Vec<BodyState<T>>,
        i: int,
    |
        0 <= i < v@.len() && #[trigger] locate.ensures((d, a, e, n), Ok(v)) ==> #[trigger] v@[i]
            == at(*a, e@[i])
}

/// With an engine that answers each epoch on its own, the positions at one
/// list of epochs after another are those at the first followed by those at
/// the second.
pub proof fn positions_of_joined_epochs<
    D,
    T,
    L: Fn(&D, &AssistOrigin, &[T], Option<usize>) -> Reply<BodyState<T>>,
>(
    p: AssistPropagator<T, D>,
    body: Seq<char>,
    name: Seq<char>,
    one: Seq<T>,
    other: Seq<T>,
    locate: L,
    at: spec_fn(AssistOrigin, T) -> BodyState<T>,
    first: Seq<[T; 3]>,
    second: Seq<[T; 3]>,
    both: Seq<[T; 3]>,
)
    requires
        answers_each_on_its_own(locate, at),
        may_position(p, body, name, one, locate, Ok(first)),
        may_position(p, body, name, other, locate, Ok(second)),
        may_position(p, body, name, one + other, locate, Ok(both)),
    ensures
        both == first + second,
{
    let r1 = positions_hold_the_reply(p, body, name, one, locate, first);
    let r2 = positions_hold_the_reply(p, body, name, other, locate, second);
    let r = positions_hold_the_reply(p, body, name, one + other, locate, both);
    lemma_one_body(name);
    assert forall|i: int| 0 <= i < both.len() implies both[i] == (first + second)[i] by {
        assert(both[i] =~= (first + second)[i]) by {
            if i < one.len() {
                assert(r@[i] == r1@[i]);
                assert(first[i][0] == r1@[i].state[0]);
            } else {
                let j = i - one.len();
                assert(r@[i] == r2@[j]);
                assert(second[j][0] == r2@[j].state[0]);
            }
        }
    }
    assert(both =~= first + second);
}

/// A name stands for one body at most.
proof fn lemma_one_body(name: Seq<char>)
    ensures
        forall|a: AssistOrigin, b: AssistOrigin| #[trigger]
            stands_for_body(name, a) && #[trigger] stands_for_body(name, b) ==> a == b,
{
    reveal_strlit("sun");
    reveal_strlit("mercury");
    reveal_strlit("venus");
    reveal_strlit("earth");
    reveal_strlit("moon");
    reveal_strlit("mars");
    reveal_strlit("jupiter");
    reveal_strlit("saturn");
    reveal_strlit("uranus");
    reveal_strlit("neptune");
    reveal_strlit("pluto");
    assert("sun"@.len() == 3);
    assert("moon"@.len() == 4 && "moon"@[1] == 'o');
    assert("mars"@.len() == 4 && "mars"@[1] == 'a');
    assert("venus"@.len() == 5 && "venus"@[0] == 'v');
    assert("earth"@.len() == 5 && "earth"@[0] == 'e');
    assert("pluto"@.len() == 5 && "pluto"@[0] == 'p');
    assert("saturn"@.len() == 6 && "saturn"@[0] == 's');
    assert("uranus"@.len() == 6 && "uranus"@[0] == 'u');
    assert("mercury"@.len() == 7 && "mercury"@[0] == 'm');
    assert("jupiter"@.len() == 7 && "jupiter"@[0] == 'j');
    assert("neptune"@.len() == 7 && "neptune"@[0] == 'n');
}

} // verus!
