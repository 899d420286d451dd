# thor-rs-assist

The ASSIST/REBOUND backend for THOR, with a verified core: IAS15 N-body
propagation and astrometric ephemerides behind the `thor-rs-propagator`
contract.

## Layout

- `src/` is the library, written in Verus. It decides what a request means,
  what the engine is asked, and what its replies become.
  - `scalar`, `constants`: the arithmetic that everything is written over.
  - `linalg`, `rotation`, `observation`: 6x6 matrices, the
    ecliptic-equatorial rotation, the observation Jacobian.
  - `definiteness`, `spectrum`: the sign of a quadratic form, eigenvalues.
  - `types`, `engine`: states, settings and errors; questions and replies.
  - `requests`: what is accepted and what is refused.
  - `propagator`, `ephemeris`, `bodies`, `transform`, `loading`: the operations.
  - `exact`, `laws`: what holds of the library as a whole.
- `tests/` runs the library in double precision, over engines that the tests
  provide.
- `app/` is ordinary Rust: it loads kernels, calls assist-rs and implements
  `thor_rs_propagator::Propagator`.

## Scalars

The library computes over a type parameter `T` with the usual operators. Its
contracts say which operations are applied to which operands, in which order,
so with doubles they fix the result to the last bit. They ask that an operator
returns one value for given operands (`scalar::lawful`); of doubles this is
taken on trust, and holds up to the bits of a NaN.

Laws that rest on algebra (a rotation and its inverse cancel, a covariance
stays symmetric) hold of doubles up to round-off. They are stated of scalars
that stand for real numbers and compute on them without error
(`exact::exact`). Laws on labels, lengths, order and refusals need no such
assumption.

## Eigenvalues

The power iteration alone misses an eigenvector that its start has no part
along, and stalls between eigenvalues of equal magnitude. The library therefore
brackets the extremes of the quadratic form by bisection, where elimination
decides on which side of a value the form stays, and the first question is
asked at the round-off tolerance. In exact arithmetic an eigenvalue below the
tolerance is never missed, and never made up.

## The engine

The engine is handed to the library as functions, and may answer differently
each time it is asked. The contracts therefore say which results may come out:
those that follow from some reply to the one question that was due. For each
operation a function of the library takes the reply as an argument and has an
exact contract.

Laws that relate two calls are stated of an engine that answers a question in
one way only (`laws::constancy`).
