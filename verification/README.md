# ecstatic

Dynamically typed component storage, verified with Verus.

A storage keeps components of any number of types. A component is inserted for an id, which owns
it from then on: the id reads it, replaces it, modifies it and empties it. The memory of an emptied
component is reused by a later insert, and compressing the memory of a type frees what is not in
use.

- `src/storage.rs` and `src/storage/`: the storage and its functions.
- `src/model.rs`: the mathematical model of what a storage keeps for one type. The contracts of the
  storage are stated over it.
- `src/laws.rs`: what holds of a storage as a whole.
- `src/storable.rs`: the types whose values can be components. A type of your own becomes one by
  `impl Storable for MyType {}`; a `kind` of its own lets proofs tell it from others.
- `src/component.rs`: boxed components and the slots that hold them.
- `src/type_map.rs`: a map that is keyed by types.
- `src/trusted.rs`: the parts of `std` whose behaviour is taken on trust.
- `app/`: a storage behind a lock, to be shared between threads.
