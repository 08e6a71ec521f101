//! The layered maps of `quickscope`, as far as the passes of this crate use them.

use quickscope::ScopeMap;
use std::collections::hash_map::RandomState;
use std::hash::BuildHasher;
use vstd::prelude::*;

verus! {

/// `quickscope::ScopeMap`: a map in layers, of which the library sees what
/// [`scope_layers`] says and nothing else.
#[verifier::external_type_specification]
#[verifier::external_body]
#[verifier::reject_recursive_types(K)]
#[verifier::reject_recursive_types(V)]
#[verifier::reject_recursive_types(S)]
pub struct ExScopeMap<K, V, S: BuildHasher>(ScopeMap<K, V, S>);

/// The layers of a scope map, the base layer first, each as the bindings defined in it.
/// A scope map is made with a base layer, which it never loses.
pub uninterp spec fn scope_layers(m: ScopeMap<usize, usize, RandomState>) -> Seq<
    Map<usize, usize>,
>;

/// The binding of `key` that is visible in the first `n` of `layers`: that of the topmost
/// of them that defines it.
pub open spec fn lookup_in(layers: Seq<Map<usize, usize>>, n: nat, key: usize) -> Option<usize>
    decreases n,
{
    if n == 0 || n > layers.len() {
        None
    } else if layers[n - 1].contains_key(key) {
        Some(layers[n - 1][key])
    } else {
        lookup_in(layers, (n - 1) as nat, key)
    }
}

/// The binding of `key` that is visible in `layers`.
pub open spec fn lookup(layers: Seq<Map<usize, usize>>, key: usize) -> Option<usize> {
    lookup_in(layers, layers.len(), key)
}

/// `layers` with `key` bound to `value` in the topmost layer.
pub open spec fn define(layers: Seq<Map<usize, usize>>, key: usize, value: usize) -> Seq<
    Map<usize, usize>,
> {
    layers.update(layers.len() - 1, layers.last().insert(key, value))
}

/// The first `n` layers bind a key as they did before, where only a layer above them
/// has changed.
pub proof fn lemma_lookup_below(
    before: Seq<Map<usize, usize>>,
    after: Seq<Map<usize, usize>>,
    n: nat,
    key: usize,
)
    requires
        n <= before.len(),
        n <= after.len(),
        forall|i: int| 0 <= i < n ==> before[i] == after[i],
    ensures
        lookup_in(before, n, key) == lookup_in(after, n, key),
    decreases n,
{
    if n > 0 {
        lemma_lookup_below(before, after, (n - 1) as nat, key);
    }
}

/// A key stands for what the innermost scope that binds it says: where the first `n`
/// layers bind `key` at all, the binding that is visible is that of the topmost of
/// them that defines it, and no layer above that one, among the `n`, defines it; where
/// none of them binds it, none is visible.
pub proof fn lemma_lookup_innermost(layers: Seq<Map<usize, usize>>, n: nat, key: usize)
    requires
        n <= layers.len(),
    ensures
        match lookup_in(layers, n, key) {
            Some(value) => exists|i: int|
                0 <= i < n && #[trigger] layers[i].contains_key(key) && layers[i][key] == value
                    && forall|j: int| i < j < n ==> !(#[trigger] layers[j]).contains_key(key),
            None => forall|j: int| 0 <= j < n ==> !(#[trigger] layers[j]).contains_key(key),
        },
    decreases n,
{
    if n > 0 {
        if layers[n - 1].contains_key(key) {
            let i = n - 1;
            assert(layers[i].contains_key(key) && layers[i][key] == lookup_in(layers, n, key).unwrap()
                && forall|j: int| i < j < n ==> !(#[trigger] layers[j]).contains_key(key));
        } else {
            lemma_lookup_innermost(layers, (n - 1) as nat, key);
            match lookup_in(layers, n, key) {
                Some(value) => {
                    let i = choose|i: int|
                        0 <= i < n - 1 && #[trigger] layers[i].contains_key(key) && layers[i][key]
                            == value && forall|j: int|
                            i < j < n - 1 ==> !(#[trigger] layers[j]).contains_key(key);
                    assert(layers[i].contains_key(key) && layers[i][key] == value && forall|j: int|
                        i < j < n ==> !(#[trigger] layers[j]).contains_key(key));
                },
                None => {},
            }
        }
    }
}

/// A binding is visible as soon as it is made, and hides no other key.
pub proof fn lemma_lookup_define(layers: Seq<Map<usize, usize>>, key: usize, value: usize, other: usize)
    requires
        layers.len() >= 1,
    ensures
        lookup(define(layers, key, value), key) == Some(value),
        other != key ==> lookup(define(layers, key, value), other) == lookup(layers, other),
{
    let after = define(layers, key, value);
    lemma_lookup_below(layers, after, (layers.len() - 1) as nat, other);
}

/// `ScopeMap::new`: a map of one empty layer.
#[verifier::external_body]
pub(crate) fn scope_new() -> (m: ScopeMap<usize, usize, RandomState>)
    ensures
        scope_layers(m) == seq![Map::<usize, usize>::empty()],
{
    ScopeMap::new()
}

/// `ScopeMap::push_layer`: an empty layer is added on top.
#[verifier::external_body]
pub(crate) fn scope_push_layer(m: &mut ScopeMap<usize, usize, RandomState>)
    ensures
        scope_layers(*final(m)) == scope_layers(*old(m)).push(Map::<usize, usize>::empty()),
{
    m.push_layer()
}

/// `ScopeMap::pop_layer`: the topmost layer goes, with its bindings, unless it is the
/// base layer; the result says whether one went.
#[verifier::external_body]
pub(crate) fn scope_pop_layer(m: &mut ScopeMap<usize, usize, RandomState>) -> (popped: bool)
    ensures
        popped == (scope_layers(*old(m)).len() > 1),
        popped ==> scope_layers(*final(m)) == scope_layers(*old(m)).drop_last(),
        !popped ==> scope_layers(*final(m)) == scope_layers(*old(m)),
{
    m.pop_layer()
}

/// `ScopeMap::define`: the topmost layer binds `key` to `value`, in place of what it
/// bound it to before.
#[verifier::external_body]
pub(crate) fn scope_define(m: &mut ScopeMap<usize, usize, RandomState>, key: usize, value: usize)
    ensures
        scope_layers(*final(m)) == define(scope_layers(*old(m)), key, value),
{
    m.define(key, value)
}

/// `ScopeMap::get`: the value that the topmost layer defining `key` gives it.
#[verifier::external_body]
pub(crate) fn scope_get(m: &ScopeMap<usize, usize, RandomState>, key: usize) -> (value: Option<usize>)
    ensures
        value == lookup(scope_layers(*m), key),
{
    m.get(&key).copied()
}

} // verus!
