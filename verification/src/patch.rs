use vstd::prelude::*;
use vstd::std_specs::cmp::PartialEqSpec;
use vstd::std_specs::convert::FromSpec;

verus! {

/// What a call of `patch_if_needed` with `new_value` may do, as a relation
/// between the state and patch before it, whether it updated, and the state
/// and patch after it. The comparison, the conversion and the clone are
/// those of the argument types' own `PartialEq`, `From` and `Clone`.
pub open spec fn patch_outcome<R: From<T>, T: Clone + PartialEq<R>>(
    old_state: Option<R>,
    old_patch: Option<R>,
    new_value: T,
    updated: bool,
    state: Option<R>,
    patch: Option<R>,
) -> bool {
    &&& !updated ==> {
        &&& old_state is Some
        &&& call_ensures(<T as PartialEq<R>>::eq, (&new_value, &old_state->0), true)
        &&& state == old_state
        &&& patch == old_patch
    }
    &&& updated ==> {
        &&& old_state is Some ==> call_ensures(
            <T as PartialEq<R>>::eq,
            (&new_value, &old_state->0),
            false,
        )
        &&& state is Some
        &&& patch is Some
        &&& call_ensures(R::from, (new_value,), state->0)
        &&& exists|c: T| cloned(new_value, c) && call_ensures(R::from, (c,), patch->0)
    }
}

/// Writes `new_value` into both `old_state` and `patch` unless `old_state`
/// already holds a value equal to it. Returns whether an update was made.
pub fn patch_if_needed<R: From<T>, T: Clone + PartialEq<R>>(
    old_state: &mut Option<R>,
    patch: &mut Option<R>,
    new_value: T,
) -> (updated: bool)
    ensures
        patch_outcome(*old(old_state), *old(patch), new_value, updated, *final(old_state), *final(patch)),
        *old(old_state) is None ==> updated,
        T::obeys_eq_spec() ==> (updated <==> !(*old(old_state) matches Some(c)
            && new_value.eq_spec(&c))),
        updated && R::obeys_from_spec() ==> final(old_state)->0 == R::from_spec(new_value),
        updated && R::obeys_from_spec() ==> exists|c: T|
            cloned(new_value, c) && final(patch)->0 == R::from_spec(c),
{
    let no_update = match old_state.as_ref() {
        Some(c) => new_value == *c,
        None => false,
    };
    if !no_update {
        let copy = new_value.clone();
        let ghost witness = copy;
        *patch = Some(R::from(copy));
        *old_state = Some(R::from(new_value));
        assert(cloned(new_value, witness) && call_ensures(R::from, (witness,), patch->0));
        true
    } else {
        false
    }
}

/// A second call with a value that compares equal to each of its own
/// conversions changes nothing: after a first call with `v`, a second call
/// with the same `v` makes no update and leaves the state and the patch as
/// the first call left them. (The second hypothesis asks only that once a
/// comparison of `v` with a value has come out equal, it always does.)
pub proof fn lemma_patch_idempotent<R: From<T>, T: Clone + PartialEq<R>>(
    v: T,
    s0: Option<R>,
    p0: Option<R>,
    u1: bool,
    s1: Option<R>,
    p1: Option<R>,
    u2: bool,
    s2: Option<R>,
    p2: Option<R>,
)
    requires
        patch_outcome(s0, p0, v, u1, s1, p1),
        patch_outcome(s1, p1, v, u2, s2, p2),
        forall|r: R, b: bool|
            #![trigger call_ensures(<T as PartialEq<R>>::eq, (&v, &r), b)]
            call_ensures(R::from, (v,), r) && call_ensures(<T as PartialEq<R>>::eq, (&v, &r), b)
                ==> b,
        forall|r: R, b: bool|
            #![trigger call_ensures(<T as PartialEq<R>>::eq, (&v, &r), b)]
            call_ensures(<T as PartialEq<R>>::eq, (&v, &r), true) && call_ensures(
                <T as PartialEq<R>>::eq,
                (&v, &r),
                b,
            ) ==> b,
    ensures
        !u2,
        s2 == s1,
        p2 == p1,
{
    if u2 {
        let r = s1->0;
        assert(call_ensures(<T as PartialEq<R>>::eq, (&v, &r), false));
        if u1 {
            assert(call_ensures(R::from, (v,), r));
        } else {
            assert(call_ensures(<T as PartialEq<R>>::eq, (&v, &r), true));
        }
    }
}

/// The patch held before a call is never read: whatever a call may do with
/// one old patch, it may do with any other, the old patch staying in place
/// only where there is no update.
pub proof fn lemma_patch_ignores_old_patch<R: From<T>, T: Clone + PartialEq<R>>(
    v: T,
    s0: Option<R>,
    pa: Option<R>,
    pb: Option<R>,
    u: bool,
    s1: Option<R>,
    p1: Option<R>,
)
    requires
        patch_outcome(s0, pa, v, u, s1, p1),
    ensures
        u ==> patch_outcome(s0, pb, v, u, s1, p1),
        !u ==> patch_outcome(s0, pb, v, u, s1, pb),
{
}

} // verus!
