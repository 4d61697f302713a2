//! Permissions: what a caller may be granted, for any kind of permission a
//! server defines.
use vstd::prelude::*;
use vstd::std_specs::cmp::PartialEqSpec;

verus! {

/// Whether permission `p` is granted, `admin` being the administrator's
/// permission and `incoming` those the caller holds: the administrator's
/// is always granted, any other when it is among those held (by `==` as the
/// type defines it).
pub open spec fn granted<P: PartialEq>(p: P, admin: P, incoming: Seq<P>) -> bool {
    p.eq_spec(&admin) || exists|i: int| 0 <= i < incoming.len() && (#[trigger] incoming[i]).eq_spec(&p)
}

/// Whether a permission is granted: it is the administrator's, or one of
/// those held is equal to it.  Where the type's `==` behaves as its
/// specification says, the result is [`granted`].
pub fn permission_granted<P: PartialEq>(p: &P, admin: &P, incoming: &[P]) -> (r: bool)
    ensures
        P::obeys_eq_spec() ==> r == granted(*p, *admin, incoming@),
{
    if p.eq(admin) {
        return true;
    }
    let mut k: usize = 0;
    while k < incoming.len()
        invariant
            0 <= k <= incoming@.len(),
            P::obeys_eq_spec() ==> !p.eq_spec(admin),
            P::obeys_eq_spec() ==> forall|j: int| 0 <= j < k ==> !(#[trigger] incoming@[j]).eq_spec(p),
        decreases incoming@.len() - k,
    {
        if incoming[k].eq(p) {
            return true;
        }
        k = k + 1;
    }
    false
}

/// A kind of permission: every permission of the kind, the one an anonymous
/// caller has, the administrator's (`spec_admin` in contracts), and whether
/// one is granted by those a caller holds: it is when it is the
/// administrator's or equal to one of them.
pub trait Permissions: Sized + PartialEq {
    /// The administrator's permission, as contracts speak of it.
    spec fn spec_admin() -> Self;

    fn all() -> Vec<Self>;

    fn anonymous() -> Self;

    fn admin() -> (r: Self)
        ensures
            r == Self::spec_admin(),
    ;

    fn has_permission(&self, incoming: &[Self]) -> (r: bool)
        ensures
            Self::obeys_eq_spec() ==> r == granted(*self, Self::spec_admin(), incoming@),
    {
        let admin = Self::admin();
        permission_granted(self, &admin, incoming)
    }
}

/// A permission equal to any of those the caller holds, at whatever
/// position, is granted; so is the administrator's, whatever is held.
pub proof fn lemma_held_permission_is_granted<P: PartialEq>(p: P, admin: P, incoming: Seq<P>, i: int)
    ensures
        0 <= i < incoming.len() && incoming[i].eq_spec(&p) ==> granted(p, admin, incoming),
        p.eq_spec(&admin) ==> granted(p, admin, incoming),
{
}

/// A permission that is not the administrator's and equals none of those
/// held is not granted.
pub proof fn lemma_unheld_permission_is_refused<P: PartialEq>(p: P, admin: P, incoming: Seq<P>)
    requires
        !p.eq_spec(&admin),
        forall|i: int| 0 <= i < incoming.len() ==> !(#[trigger] incoming[i]).eq_spec(&p),
    ensures
        !granted(p, admin, incoming),
{
}

} // verus!
