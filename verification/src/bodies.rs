//! Where bodies, origins and observatories are.

use vstd::prelude::*;
use vstd::utf8::is_ascii_chars;

use crate::constants::Constants;
use crate::engine::{located, AssistOrigin, BodyState, Reply};
use crate::linalg::{lemma_vec6_ext, vec6, Vec6};
use crate::propagator::{from_helio_ecliptic, helio_ecliptic, AssistPropagator};
use crate::requests::origin_name;
use crate::text::{ascii_lowercase, decimal_text, lowercase, text_eq, usize_text};
use crate::types::{list_outcome, outcome, ErrorView, ObserverState, Origin, PropagatorError};

verus! {

/// The engine's name for an origin. The Sun is the hub and needs none.
pub open spec fn looked_up(origin: Origin) -> Option<AssistOrigin> {
    match origin {
        Origin::Sun => None,
        Origin::SolarSystemBarycenter => Some(AssistOrigin::SolarSystemBarycenter),
        Origin::Earth => Some(AssistOrigin::Earth),
    }
}

/// The engine's name for an origin.
pub fn assist_origin(origin: Origin) -> (r: Option<AssistOrigin>)
    ensures
        r == looked_up(origin),
{
    match origin {
        Origin::Sun => None,
        Origin::SolarSystemBarycenter => Some(AssistOrigin::SolarSystemBarycenter),
        Origin::Earth => Some(AssistOrigin::Earth),
    }
}

/// What becomes of the lookup of an origin on the engine's reply.
pub open spec fn origin_outcome<T>(origin: Origin, reply: Reply<BodyState<T>>) -> Result<
    Vec6<T>,
    ErrorView,
> {
    match reply {
        Err(e) => Err(
            ErrorView::Other("assist_get_state("@ + origin_name(origin) + "): "@ + e@),
        ),
        Ok(states) => if states@.len() == 0 {
            Err(ErrorView::Other("no state returned for "@ + origin_name(origin)))
        } else {
            Ok(states@[0].state)
        },
    }
}

/// The state of an origin on the engine's reply.
pub fn origin_from_reply<T: Copy>(origin: Origin, reply: Reply<BodyState<T>>) -> (r: Result<
    Vec6<T>,
    PropagatorError,
>)
    ensures
        outcome(r) == origin_outcome(origin, reply),
{
    match reply {
        Err(e) => Err(
            PropagatorError::Other(
                String::from_str("assist_get_state(").concat(origin.name()).concat("): ").concat(
                    e.as_str(),
                ),
            ),
        ),
        Ok(states) => if states.len() == 0 {
            Err(
                PropagatorError::Other(
                    String::from_str("no state returned for ").concat(origin.name()),
                ),
            )
        } else {
            Ok(states[0].state)
        },
    }
}

/// The heliocentric ecliptic states that an origin may be found at. That of
/// the Sun is zero, and the engine is not asked.
pub open spec fn may_center<
    D,
    T,
    L: Fn(&D, &AssistOrigin, &[T], Option<usize>) -> Reply<BodyState<T>>,
>(
    p: AssistPropagator<T, D>,
    c: Constants<T>,
    origin: Origin,
    epoch: T,
    locate: L,
    out: Result<Vec6<T>, ErrorView>,
) -> bool {
    match looked_up(origin) {
        None => out == Ok::<Vec6<T>, ErrorView>(vec6(|i: int| c.zero)),
        Some(a) => exists|reply: Reply<BodyState<T>>| #[trigger]
            located(locate, p.data, a, seq![epoch], Some(1usize), reply) && out == origin_outcome(
                origin,
                reply,
            ),
    }
}

/// What becomes of the lookup of an observatory on the engine's reply.
pub open spec fn observer_outcome<T>(code: String, reply: Reply<BodyState<T>>) -> Result<
    ObserverState<T>,
    ErrorView,
> {
    match reply {
        Err(e) => Err(ErrorView::InvalidObserver(code@ + ": "@ + e@)),
        Ok(states) => if states@.len() == 0 {
            Err(ErrorView::InvalidObserver("no state for "@ + code@))
        } else {
            Ok(ObserverState { code, state: helio_ecliptic(states@[0].state, states@[0].epoch) })
        },
    }
}

/// The observer with a code, on the engine's reply.
pub fn observer_from_reply<T: Copy>(code: &String, reply: Reply<BodyState<T>>) -> (r: Result<
    ObserverState<T>,
    PropagatorError,
>)
    ensures
        outcome(r) == observer_outcome(*code, reply),
{
    match reply {
        Err(e) => Err(
            PropagatorError::InvalidObserver(
                String::from_str(code.as_str()).concat(": ").concat(e.as_str()),
            ),
        ),
        Ok(states) => if states.len() == 0 {
            Err(
                PropagatorError::InvalidObserver(
                    String::from_str("no state for ").concat(code.as_str()),
                ),
            )
        } else {
            Ok(
                ObserverState {
                    code: code.clone(),
                    state: from_helio_ecliptic(states[0].state, states[0].epoch),
                },
            )
        },
    }
}

/// What the lookup of one observatory at one epoch may give.
pub open spec fn may_find<
    D,
    T,
    L: Fn(&D, &AssistOrigin, &[T], Option<usize>) -> Reply<BodyState<T>>,
>(
    p: AssistPropagator<T, D>,
    code: String,
    epoch: T,
    locate: L,
    out: Result<ObserverState<T>, ErrorView>,
) -> bool {
    exists|reply: Reply<BodyState<T>>| #[trigger]
        located(
            locate,
            p.data,
            AssistOrigin::Observatory(code),
            seq![epoch],
            Some(1usize),
            reply,
        ) && out == observer_outcome(code, reply)
}

/// The lookup of one observatory at one epoch may succeed.
pub open spec fn findable<
    D,
    T,
    L: Fn(&D, &AssistOrigin, &[T], Option<usize>) -> Reply<BodyState<T>>,
>(p: AssistPropagator<T, D>, code: String, epoch: T, locate: L) -> bool {
    exists|o: ObserverState<T>| may_find(p, code, epoch, locate, Ok(o))
}

/// The lookups may succeed up to the one at `i`, which fails with `e`.
pub open spec fn may_stop<
    D,
    T,
    L: Fn(&D, &AssistOrigin, &[T], Option<usize>) -> Reply<BodyState<T>>,
>(
    p: AssistPropagator<T, D>,
    codes: Seq<String>,
    epochs: Seq<T>,
    locate: L,
    i: int,
    e: ErrorView,
) -> bool {
    &&& forall|k: int| 0 <= k < i ==> findable(p, #[trigger] codes[k], epochs[k], locate)
    &&& may_find(p, codes[i], epochs[i], locate, Err(e))
}

/// The results that [`AssistPropagator::compute_observers`] may give. The two
/// lists must be of one length. Observatories are then looked up one by one;
/// the first failure ends the list and is returned.
pub open spec fn may_observe<
    D,
    T,
    L: Fn(&D, &AssistOrigin, &[T], Option<usize>) -> Reply<BodyState<T>>,
>(
    p: AssistPropagator<T, D>,
    codes: Seq<String>,
    epochs: Seq<T>,
    locate: L,
    out: Result<Seq<ObserverState<T>>, ErrorView>,
) -> bool {
    if codes.len() != epochs.len() {
        out == Err::<Seq<ObserverState<T>>, ErrorView>(
            ErrorView::Other(
                "compute_observers: codes.len()="@ + decimal_text(codes.len())
                    + " != epochs.len()="@ + decimal_text(epochs.len()),
            ),
        )
    } else {
        match out {
            Ok(found) => {
                &&& found.len() == codes.len()
                &&& forall|i: int|
                    0 <= i < codes.len() ==> may_find(
                        p,
                        #[trigger] codes[i],
                        epochs[i],
                        locate,
                        Ok(found[i]),
                    )
            },
            Err(e) => exists|i: int|
                0 <= i < codes.len() && #[trigger] may_stop(p, codes, epochs, locate, i, e),
        }
    }
}

/// The body that a lower-case name stands for.
pub open spec fn body_named(name: Seq<char>) -> Option<AssistOrigin> {
    if name == "sun"@ {
        Some(AssistOrigin::Sun)
    } else if name == "mercury"@ {
        Some(AssistOrigin::MercuryBarycenter)
    } else if name == "venus"@ {
        Some(AssistOrigin::VenusBarycenter)
    } else if name == "earth"@ {
        Some(AssistOrigin::Earth)
    } else if name == "moon"@ {
        Some(AssistOrigin::Moon)
    } else if name == "mars"@ {
        Some(AssistOrigin::MarsBarycenter)
    } else if name == "jupiter"@ {
        Some(AssistOrigin::JupiterBarycenter)
    } else if name == "saturn"@ {
        Some(AssistOrigin::SaturnBarycenter)
    } else if name == "uranus"@ {
        Some(AssistOrigin::UranusBarycenter)
    } else if name == "neptune"@ {
        Some(AssistOrigin::NeptuneBarycenter)
    } else if name == "pluto"@ {
        Some(AssistOrigin::PlutoBarycenter)
    } else {
        None
    }
}

/// What becomes of a lower-case body name.
pub open spec fn body_outcome(name: Seq<char>) -> Result<AssistOrigin, ErrorView> {
    match body_named(name) {
        Some(o) => Ok(o),
        None => Err(
            ErrorView::Other(
                "compute_body_positions: unknown body '"@ + name
                    + "' (expected sun/mercury/venus/earth/moon/mars/jupiter/saturn/uranus/neptune/pluto)"@,
            ),
        ),
    }
}

/// The body that a lower-case name stands for.
pub fn body_origin(name: &str) -> (r: Result<AssistOrigin, PropagatorError>)
    ensures
        outcome(r) == body_outcome(name@),
{
    if text_eq(name, "sun") {
        Ok(AssistOrigin::Sun)
    } else if text_eq(name, "mercury") {
        Ok(AssistOrigin::MercuryBarycenter)
    } else if text_eq(name, "venus") {
        Ok(AssistOrigin::VenusBarycenter)
    } else if text_eq(name, "earth") {
        Ok(AssistOrigin::Earth)
    } else if text_eq(name, "moon") {
        Ok(AssistOrigin::Moon)
    } else if text_eq(name, "mars") {
        Ok(AssistOrigin::MarsBarycenter)
    } else if text_eq(name, "jupiter") {
        Ok(AssistOrigin::JupiterBarycenter)
    } else if text_eq(name, "saturn") {
        Ok(AssistOrigin::SaturnBarycenter)
    } else if text_eq(name, "uranus") {
        Ok(AssistOrigin::UranusBarycenter)
    } else if text_eq(name, "neptune") {
        Ok(AssistOrigin::NeptuneBarycenter)
    } else if text_eq(name, "pluto") {
        Ok(AssistOrigin::PlutoBarycenter)
    } else {
        Err(
            PropagatorError::Other(
                String::from_str("compute_body_positions: unknown body '").concat(name).concat(
                    "' (expected sun/mercury/venus/earth/moon/mars/jupiter/saturn/uranus/neptune/pluto)",
                ),
            ),
        )
    }
}

/// The position in a state.
pub open spec fn position<T>(v: Vec6<T>) -> [T; 3] {
    [v[0], v[1], v[2]]
}

/// What becomes of a request for `wanted` positions of a body on the engine's
/// reply. `body` is the name as the caller wrote it.
pub open spec fn positions_outcome<T>(
    body: Seq<char>,
    wanted: nat,
    reply: Reply<BodyState<T>>,
) -> Result<Seq<[T; 3]>, ErrorView> {
    match reply {
        Err(e) => Err(ErrorView::Other("compute_body_positions("@ + body + "): "@ + e@)),
        Ok(states) => if states@.len() != wanted {
            Err(
                ErrorView::Other(
                    "compute_body_positions("@ + body + "): expected "@ + decimal_text(wanted)
                        + " states, got "@ + decimal_text(states@.len()),
                ),
            )
        } else {
            Ok(Seq::new(states@.len(), |i: int| position(states@[i].state)))
        },
    }
}

/// The positions of a body on the engine's reply.
pub fn positions_from_reply<T: Copy>(body: &str, wanted: usize, reply: Reply<BodyState<T>>) -> (r:
    Result<Vec<[T; 3]>, PropagatorError>)
    ensures
        list_outcome(r) == positions_outcome(body@, wanted as nat, reply),
{
    match reply {
        Err(e) => Err(
            PropagatorError::Other(
                String::from_str("compute_body_positions(").concat(body).concat("): ").concat(
                    e.as_str(),
                ),
            ),
        ),
        Ok(states) => {
            if states.len() != wanted {
                return Err(
                    PropagatorError::Other(
                        String::from_str("compute_body_positions(").concat(body).concat(
                            "): expected ",
                        ).concat(usize_text(wanted).as_str()).concat(" states, got ").concat(
                            usize_text(states.len()).as_str(),
                        ),
                    ),
                );
            }
            let mut out: Vec<[T; 3]> = Vec::with_capacity(states.len());
            let mut i: usize = 0;
            while i < states.len()
                invariant
                    i <= states@.len(),
                    out@.len() == i,
                    forall|k: int| 0 <= k < i ==> #[trigger] out@[k] == position(states@[k].state),
                decreases states@.len() - i,
            {
                let s = &states[i].state;
                let at = [s[0], s[1], s[2]];
                assert(at =~= position(states@[i as int].state));
                out.push(at);
                i = i + 1;
            }
            proof {
                let want = positions_outcome(body@, wanted as nat, Ok(states));
                assert(out@ =~= want->Ok_0);
            }
            Ok(out)
        },
    }
}

/// The results that a request for the positions of `body`, whose name in lower
/// case is `name`, may give.
pub open spec fn may_position<
    D,
    T,
    L: Fn(&D, &AssistOrigin, &[T], Option<usize>) -> Reply<BodyState<T>>,
>(
    p: AssistPropagator<T, D>,
    body: Seq<char>,
    name: Seq<char>,
    epochs: Seq<T>,
    locate: L,
    out: Result<Seq<[T; 3]>, ErrorView>,
) -> bool {
    match body_outcome(name) {
        Err(e) => out == Err::<Seq<[T; 3]>, ErrorView>(e),
        Ok(o) => exists|reply: Reply<BodyState<T>>| #[trigger]
            located(locate, p.data, o, epochs, Some(epochs.len() as usize), reply) && out
                == positions_outcome(body, epochs.len(), reply),
    }
}

impl<T: Copy, D> AssistPropagator<T, D> {
    /// The heliocentric ecliptic state of an origin.
    pub fn origin_helio_ecl_state<
        L: Fn(&D, &AssistOrigin, &[T], Option<usize>) -> Reply<BodyState<T>>,
    >(&self, origin: Origin, epoch: T, c: &Constants<T>, locate: &L) -> (r: Result<
        Vec6<T>,
        PropagatorError,
    >)
        requires
            forall|d: &D, o: &AssistOrigin, e: &[T], n: Option<usize>| #[trigger]
                locate.requires((d, o, e, n)),
        ensures
            may_center(*self, *c, origin, epoch, *locate, outcome(r)),
    {
        match assist_origin(origin) {
            None => {
                let v = [c.zero; 6];
                proof {
                    lemma_vec6_ext(v, vec6(|i: int| c.zero));
                }
                Ok(v)
            },
            Some(a) => {
                let epochs = vec![epoch];
                let reply = locate(&self.data, &a, epochs.as_slice(), Some(1));
                assert(epochs@ =~= seq![epoch]);
                assert(located(
                    *locate,
                    self.data,
                    looked_up(origin)->Some_0,
                    seq![epoch],
                    Some(1usize),
                    reply,
                ));
                origin_from_reply(origin, reply)
            },
        }
    }

    /// The heliocentric ecliptic states of observatories: `codes[i]` at
    /// `epochs[i]`.
    pub fn compute_observers<
        L: Fn(&D, &AssistOrigin, &[T], Option<usize>) -> Reply<BodyState<T>>,
    >(&self, codes: &[String], epochs: &[T], locate: &L) -> (r: Result<
        Vec<ObserverState<T>>,
        PropagatorError,
    >)
        requires
            forall|d: &D, o: &AssistOrigin, e: &[T], n: Option<usize>| #[trigger]
                locate.requires((d, o, e, n)),
        ensures
            may_observe(*self, codes@, epochs@, *locate, list_outcome(r)),
    {
        if codes.len() != epochs.len() {
            return Err(
                PropagatorError::Other(
                    String::from_str("compute_observers: codes.len()=").concat(
                        usize_text(codes.len()).as_str(),
                    ).concat(" != epochs.len()=").concat(usize_text(epochs.len()).as_str()),
                ),
            );
        }
        let mut out: Vec<ObserverState<T>> = Vec::with_capacity(codes.len());
        let mut i: usize = 0;
        while i < codes.len()
            invariant
                i <= codes@.len(),
                codes@.len() == epochs@.len(),
                out@.len() == i,
                forall|d: &D, o: &AssistOrigin, e: &[T], n: Option<usize>| #[trigger]
                    locate.requires((d, o, e, n)),
                forall|k: int|
                    0 <= k < i ==> may_find(
                        *self,
                        #[trigger] codes@[k],
                        epochs@[k],
                        *locate,
                        Ok(out@[k]),
                    ),
            decreases codes@.len() - i,
        {
            let origin = AssistOrigin::Observatory(codes[i].clone());
            let one = vec![epochs[i]];
            let reply = locate(&self.data, &origin, one.as_slice(), Some(1));
            assert(one@ =~= seq![epochs@[i as int]]);
            assert(located(
                *locate,
                self.data,
                AssistOrigin::Observatory(codes@[i as int]),
                seq![epochs@[i as int]],
                Some(1usize),
                reply,
            ));
            match observer_from_reply(&codes[i], reply) {
                Err(e) => {
                    assert(may_stop(*self, codes@, epochs@, *locate, i as int, e@));
                    return Err(e);
                },
                Ok(o) => {
                    assert(may_find(*self, codes@[i as int], epochs@[i as int], *locate, Ok(o)));
                    out.push(o);
                },
            }
            i = i + 1;
        }
        Ok(out)
    }

    /// The heliocentric ecliptic positions of a major body. Its name is taken
    /// in any case.
    pub fn compute_body_positions<
        L: Fn(&D, &AssistOrigin, &[T], Option<usize>) -> Reply<BodyState<T>>,
    >(&self, body: &str, epochs: &[T], locate: &L) -> (r: Result<Vec<[T; 3]>, PropagatorError>)
        requires
            forall|d: &D, o: &AssistOrigin, e: &[T], n: Option<usize>| #[trigger]
                locate.requires((d, o, e, n)),
        ensures
            may_position(*self, body@, lowercase(body@), epochs@, *locate, list_outcome(r)),
            is_ascii_chars(body@) ==> may_position(
                *self,
                body@,
                ascii_lowercase(body@),
                epochs@,
                *locate,
                list_outcome(r),
            ),
    {
        let name = body.to_lowercase();
        let origin = match body_origin(name.as_str()) {
            Err(e) => {
                return Err(e);
            },
            Ok(o) => o,
        };
        let reply = locate(&self.data, &origin, epochs, Some(epochs.len()));
        assert(located(
            *locate,
            self.data,
            body_outcome(lowercase(body@))->Ok_0,
            epochs@,
            Some(epochs@.len() as usize),
            reply,
        ));
        positions_from_reply(body, epochs.len(), reply)
    }
}

} // verus!
