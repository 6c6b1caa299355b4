use vstd::prelude::*;

verus! {

/// The state of a value that is fetched from the server.
#[derive(PartialEq)]
pub enum Resource<T: PartialEq> {
    Loading,
    Ready(T),
    Failed(String),
}

/// The resource with `f` applied to its value when it is ready.
pub open spec fn map_with<T: PartialEq, K: PartialEq>(r: Resource<T>, f: spec_fn(T) -> K) -> Resource<K> {
    match r {
        Resource::Loading => Resource::Loading,
        Resource::Ready(data) => Resource::Ready(f(data)),
        Resource::Failed(error) => Resource::Failed(error),
    }
}

/// Mapping with `f` and then with `g` is mapping once with `g` after `f`.
pub proof fn law_map_composes<T: PartialEq, K: PartialEq, L: PartialEq>(
    r: Resource<T>,
    f: spec_fn(T) -> K,
    g: spec_fn(K) -> L,
)
    ensures
        map_with(map_with(r, f), g) == map_with(r, |x: T| g(f(x))),
{
}

impl<T: PartialEq> Resource<T> {
    /// Applies `map` to the value when it is ready; a loading or failed
    /// resource keeps its state (and its error message).
    pub fn map<K: PartialEq, F: Fn(T) -> K>(self, map: F) -> (res: Resource<K>)
        requires
            self matches Resource::Ready(data) ==> call_requires(map, (data,)),
        ensures
            self is Loading <==> res is Loading,
            self matches Resource::Ready(data) ==> (res matches Resource::Ready(out) && call_ensures(map, (data,), out)),
            self matches Resource::Failed(error) ==> (res matches Resource::Failed(out) && out == error),
            forall|h: spec_fn(T) -> K|
                (forall|x: T, y: K| call_ensures(map, (x,), y) ==> y == h(x)) ==> #[trigger] map_with(self, h) == res,
    {
        match self {
            Resource::Loading => Resource::Loading,
            Resource::Ready(data) => Resource::Ready(map(data)),
            Resource::Failed(error) => Resource::Failed(error),
        }
    }
}

} // verus!
