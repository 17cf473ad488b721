//! Boundary conditions on mesh nodes: a prescribed displacement on some axes,
//! an external force, or nothing; and how two conditions on one node combine.
use vstd::prelude::*;

verus! {

/// A quantity that can be laid on top of another of its kind (for the time
/// functions of boundary conditions: their sum).
pub trait Superpose: Sized {
    fn superpose(self, other: Self) -> Self;
}

/// A displacement prescribed on one, two or three axes, each by its own
/// function of time.
#[derive(Debug, Clone)]
pub enum Displacement<F> {
    X(F),
    Y(F),
    Z(F),
    XY(F, F),
    XZ(F, F),
    YZ(F, F),
    XYZ(F, F, F),
}

/// The condition on a node.
#[derive(Debug, Clone)]
pub enum BoundaryCondition<F> {
    Free,
    Force(F, F, F),
    Displacement(Displacement<F>),
}

impl<F> Default for BoundaryCondition<F> {
    /// A free node.
    fn default() -> (c: Self)
        ensures
            c is Free,
    {
        BoundaryCondition::Free
    }
}

/// What is averaged over a boundary while it is recorded: the quantity that
/// its condition leaves free.
#[derive(Debug, Clone, Copy, PartialEq, Eq)]
pub enum BoundaryAverageKind {
    Force,
    Displacement,
    ForceAndDisplacement,
}

/// The function on each axis, where the displacement prescribes one.
pub open spec fn axes<F>(d: Displacement<F>) -> (Option<F>, Option<F>, Option<F>) {
    match d {
        Displacement::X(x) => (Some(x), None, None),
        Displacement::Y(y) => (None, Some(y), None),
        Displacement::Z(z) => (None, None, Some(z)),
        Displacement::XY(x, y) => (Some(x), Some(y), None),
        Displacement::XZ(x, z) => (Some(x), None, Some(z)),
        Displacement::YZ(y, z) => (None, Some(y), Some(z)),
        Displacement::XYZ(x, y, z) => (Some(x), Some(y), Some(z)),
    }
}

/// Which axes the displacement prescribes.
pub open spec fn axis_set<F>(d: Displacement<F>) -> (bool, bool, bool) {
    (axes(d).0 is Some, axes(d).1 is Some, axes(d).2 is Some)
}

/// `r` is what one axis holds after combining `a` and `b`: the one present,
/// or, where both are, a result of laying `b` on `a`.
pub open spec fn merged<F: Superpose>(a: Option<F>, b: Option<F>, r: Option<F>) -> bool {
    match (a, b) {
        (None, None) => r is None,
        (Some(x), None) => r == Some(x),
        (None, Some(y)) => r == Some(y),
        (Some(x), Some(y)) => r is Some && call_ensures(F::superpose, (x, y), r->0),
    }
}

/// `r` is a combination of the displacements `a` and `b`, axis by axis.
pub open spec fn displacement_sum<F: Superpose>(
    a: Displacement<F>,
    b: Displacement<F>,
    r: Displacement<F>,
) -> bool {
    &&& merged(axes(a).0, axes(b).0, axes(r).0)
    &&& merged(axes(a).1, axes(b).1, axes(r).1)
    &&& merged(axes(a).2, axes(b).2, axes(r).2)
}

/// `r` is a combination of the conditions `a` and `b`: nothing yields to
/// anything, a displacement overrides a force, two forces add per axis and two
/// displacements combine per axis.
pub open spec fn condition_sum<F: Superpose>(
    a: BoundaryCondition<F>,
    b: BoundaryCondition<F>,
    r: BoundaryCondition<F>,
) -> bool {
    match (a, b) {
        (BoundaryCondition::Free, _) => r == b,
        (BoundaryCondition::Force(x, y, z), BoundaryCondition::Free) => r == a,
        (BoundaryCondition::Force(x1, y1, z1), BoundaryCondition::Force(x2, y2, z2)) => {
            &&& r is Force
            &&& call_ensures(F::superpose, (x1, x2), r->Force_0)
            &&& call_ensures(F::superpose, (y1, y2), r->Force_1)
            &&& call_ensures(F::superpose, (z1, z2), r->Force_2)
        },
        (BoundaryCondition::Force(x, y, z), BoundaryCondition::Displacement(d)) => r == b,
        (BoundaryCondition::Displacement(d1), BoundaryCondition::Displacement(d2)) => {
            &&& r is Displacement
            &&& displacement_sum(d1, d2, r->Displacement_0)
        },
        (BoundaryCondition::Displacement(d), _) => r == a,
    }
}

/// `partials` are the running totals of adding up `items` from the left,
/// starting from a free node.
pub open spec fn running_sums<F: Superpose>(
    items: Seq<BoundaryCondition<F>>,
    partials: Seq<BoundaryCondition<F>>,
) -> bool {
    &&& partials.len() == items.len() + 1
    &&& partials[0] is Free
    &&& forall|k: int|
        0 <= k < items.len() ==> #[trigger] condition_sum(partials[k], items[k], partials[k + 1])
}

/// `r` is what adding up `items` from the left, starting from a free node,
/// gives.
pub open spec fn sum_of<F: Superpose>(items: Seq<BoundaryCondition<F>>, r: BoundaryCondition<F>) -> bool {
    exists|partials: Seq<BoundaryCondition<F>>|
        #[trigger] running_sums(items, partials) && partials.last() == r
}

/// 0 for a free node, 1 for a force, 2 for a displacement.
pub open spec fn kind<F>(c: BoundaryCondition<F>) -> int {
    match c {
        BoundaryCondition::Free => 0,
        BoundaryCondition::Force(_, _, _) => 1,
        BoundaryCondition::Displacement(_) => 2,
    }
}

/// The quantity recorded for a boundary under condition `c`.
pub open spec fn average_kind_of<F>(c: BoundaryCondition<F>) -> BoundaryAverageKind {
    match c {
        BoundaryCondition::Free => BoundaryAverageKind::ForceAndDisplacement,
        BoundaryCondition::Force(_, _, _) => BoundaryAverageKind::Displacement,
        BoundaryCondition::Displacement(_) => BoundaryAverageKind::Force,
    }
}

fn merge_axis<F: Superpose>(a: Option<F>, b: Option<F>) -> (r: Option<F>)
    ensures
        merged(a, b, r),
{
    match (a, b) {
        (None, None) => None,
        (Some(x), None) => Some(x),
        (None, Some(y)) => Some(y),
        (Some(x), Some(y)) => Some(x.superpose(y)),
    }
}

impl<F: Superpose> Displacement<F> {
    /// The functions on the three axes, `None` where no displacement is given.
    fn into_axes(self) -> (r: (Option<F>, Option<F>, Option<F>))
        ensures
            r == axes(self),
    {
        match self {
            Displacement::X(x) => (Some(x), None, None),
            Displacement::Y(y) => (None, Some(y), None),
            Displacement::Z(z) => (None, None, Some(z)),
            Displacement::XY(x, y) => (Some(x), Some(y), None),
            Displacement::XZ(x, z) => (Some(x), None, Some(z)),
            Displacement::YZ(y, z) => (None, Some(y), Some(z)),
            Displacement::XYZ(x, y, z) => (Some(x), Some(y), Some(z)),
        }
    }

    /// Combines two displacements axis by axis: an axis that only one of them
    /// prescribes keeps its function, an axis both prescribe gets the sum of
    /// the two functions.
    pub fn add(self, rhs: Self) -> (r: Self)
        ensures
            displacement_sum(self, rhs, r),
    {
        let (x1, y1, z1) = self.into_axes();
        let (x2, y2, z2) = rhs.into_axes();
        let x = merge_axis(x1, x2);
        let y = merge_axis(y1, y2);
        let z = merge_axis(z1, z2);
        match (x, y) {
            (Some(fx), Some(fy)) => match z {
                Some(fz) => Displacement::XYZ(fx, fy, fz),
                None => Displacement::XY(fx, fy),
            },
            (Some(fx), None) => match z {
                Some(fz) => Displacement::XZ(fx, fz),
                None => Displacement::X(fx),
            },
            (None, Some(fy)) => match z {
                Some(fz) => Displacement::YZ(fy, fz),
                None => Displacement::Y(fy),
            },
            // Each side prescribes at least one axis, so `z` is present here.
            (None, None) => Displacement::Z(z.unwrap()),
        }
    }

    /// Which axes (x, y, z) the displacement prescribes; the others move freely.
    pub fn prescribed_axes(&self) -> (r: (bool, bool, bool))
        ensures
            r == axis_set(*self),
    {
        match self {
            Displacement::X(_) => (true, false, false),
            Displacement::Y(_) => (false, true, false),
            Displacement::Z(_) => (false, false, true),
            Displacement::XY(_, _) => (true, true, false),
            Displacement::XZ(_, _) => (true, false, true),
            Displacement::YZ(_, _) => (false, true, true),
            Displacement::XYZ(_, _, _) => (true, true, true),
        }
    }
}

impl<F: Superpose> BoundaryCondition<F> {
    /// Combines two conditions on one node (see [`condition_sum`]).
    pub fn add(self, rhs: Self) -> (r: Self)
        ensures
            condition_sum(self, rhs, r),
    {
        match (self, rhs) {
            (BoundaryCondition::Free, other) => other,
            (BoundaryCondition::Force(x, y, z), BoundaryCondition::Free) => BoundaryCondition::Force(
                x,
                y,
                z,
            ),
            (BoundaryCondition::Force(x1, y1, z1), BoundaryCondition::Force(x2, y2, z2)) => {
                BoundaryCondition::Force(x1.superpose(x2), y1.superpose(y2), z1.superpose(z2))
            },
            (BoundaryCondition::Force(_, _, _), BoundaryCondition::Displacement(d)) => {
                BoundaryCondition::Displacement(d)
            },
            (BoundaryCondition::Displacement(d1), BoundaryCondition::Displacement(d2)) => {
                BoundaryCondition::Displacement(d1.add(d2))
            },
            (BoundaryCondition::Displacement(d), _) => BoundaryCondition::Displacement(d),
        }
    }

    /// Adds up the conditions from the left, starting from a free node.
    pub fn sum(items: Vec<Self>) -> (r: Self)
        ensures
            sum_of(items@, r),
    {
        let ghost s = items@;
        let mut acc = BoundaryCondition::Free;
        let mut items = items;
        let n = items.len();
        // The items in reverse order, so that popping yields them in order.
        let mut rest: Vec<Self> = Vec::new();
        while rest.len() < n
            invariant
                n == s.len(),
                items@ == s.take(n - rest@.len()),
                rest@.len() <= n,
                forall|k: int| 0 <= k < rest@.len() ==> #[trigger] rest@[k] == s[n - 1 - k],
            decreases n - rest@.len(),
        {
            let item = items.pop().unwrap();
            rest.push(item);
            assert(items@ =~= s.take(n - rest@.len()));
        }
        let ghost mut partials: Seq<Self> = seq![acc];
        let mut i: usize = 0;
        while i < n
            invariant
                i <= n,
                n == s.len(),
                rest@.len() == n - i,
                forall|k: int| 0 <= k < n - i ==> #[trigger] rest@[k] == s[n - 1 - k],
                running_sums(s.take(i as int), partials),
                partials.last() == acc,
            decreases n - i,
        {
            assert(rest@[rest@.len() - 1] == s[i as int]);
            let item = rest.pop().unwrap();
            let ghost prev = partials;
            acc = acc.add(item);
            proof {
                partials = partials.push(acc);
                let t1 = s.take(i as int + 1);
                assert forall|k: int| 0 <= k < t1.len() implies #[trigger] condition_sum(
                    partials[k],
                    t1[k],
                    partials[k + 1],
                ) by {
                    if k < i {
                        assert(prev[k] == partials[k] && prev[k + 1] == partials[k + 1]);
                        assert(s.take(i as int)[k] == t1[k]);
                        assert(condition_sum(prev[k], s.take(i as int)[k], prev[k + 1]));
                    }
                }
            }
            i = i + 1;
        }
        assert(s.take(n as int) =~= s);
        acc
    }

    /// What is averaged over a boundary with this condition while it is
    /// recorded: the displacement under a force, the force under a
    /// displacement, both on a free boundary.
    pub fn average_kind(&self) -> (k: BoundaryAverageKind)
        ensures
            k == average_kind_of(*self),
    {
        match self {
            BoundaryCondition::Free => BoundaryAverageKind::ForceAndDisplacement,
            BoundaryCondition::Force(_, _, _) => BoundaryAverageKind::Displacement,
            BoundaryCondition::Displacement(_) => BoundaryAverageKind::Force,
        }
    }
}

/// A free node adds nothing, on either side.
pub proof fn law_free_is_identity<F: Superpose>(c: BoundaryCondition<F>, r1: BoundaryCondition<F>, r2: BoundaryCondition<F>)
    requires
        condition_sum(BoundaryCondition::Free, c, r1),
        condition_sum(c, BoundaryCondition::Free, r2),
    ensures
        r1 == c,
        r2 == c,
{
}

/// Combining never weakens a condition: the result is a displacement when
/// either side is one, a force when either side is a force and neither a
/// displacement, and free only when both are.
pub proof fn law_strongest_kind_wins<F: Superpose>(a: BoundaryCondition<F>, b: BoundaryCondition<F>, r: BoundaryCondition<F>)
    requires
        condition_sum(a, b, r),
    ensures
        kind(r) == if kind(a) >= kind(b) { kind(a) } else { kind(b) },
{
}

/// Two displacements combine into one that prescribes exactly the axes that
/// either of them prescribes.
pub proof fn law_displacement_axes_union<F: Superpose>(a: Displacement<F>, b: Displacement<F>, r: Displacement<F>)
    requires
        displacement_sum(a, b, r),
    ensures
        axis_set(r) == (axis_set(a).0 || axis_set(b).0, axis_set(a).1 || axis_set(b).1, axis_set(a).2 || axis_set(b).2),
{
}

/// The order of two conditions does not change what kind of condition, nor
/// which displacement axes, they combine into.
pub proof fn law_combination_shape_commutes<F: Superpose>(
    a: BoundaryCondition<F>,
    b: BoundaryCondition<F>,
    r1: BoundaryCondition<F>,
    r2: BoundaryCondition<F>,
)
    requires
        condition_sum(a, b, r1),
        condition_sum(b, a, r2),
    ensures
        kind(r1) == kind(r2),
        (r1 is Displacement && r2 is Displacement) ==> axis_set(r1->Displacement_0) == axis_set(r2->Displacement_0),
{
}

/// Two forces add axis by axis: the result is a force whose x, y and z
/// components are superpositions of the x, y and z components of the two
/// forces respectively.
pub proof fn law_forces_add_per_axis<F: Superpose>(
    x1: F,
    y1: F,
    z1: F,
    x2: F,
    y2: F,
    z2: F,
    r: BoundaryCondition<F>,
)
    requires
        condition_sum(BoundaryCondition::Force(x1, y1, z1), BoundaryCondition::Force(x2, y2, z2), r),
    ensures
        r matches BoundaryCondition::Force(x, y, z) && call_ensures(F::superpose, (x1, x2), x) && call_ensures(
            F::superpose,
            (y1, y2),
            y,
        ) && call_ensures(F::superpose, (z1, z2), z),
{
}

/// A displacement overrides a force, on either side; a force or a
/// displacement is kept as it is next to a free node.
pub proof fn law_displacement_overrides_force<F: Superpose>(
    x: F,
    y: F,
    z: F,
    d: Displacement<F>,
    r1: BoundaryCondition<F>,
    r2: BoundaryCondition<F>,
)
    requires
        condition_sum(BoundaryCondition::Force(x, y, z), BoundaryCondition::Displacement(d), r1),
        condition_sum(BoundaryCondition::Displacement(d), BoundaryCondition::Force(x, y, z), r2),
    ensures
        r1 == BoundaryCondition::Displacement(d),
        r2 == BoundaryCondition::Displacement(d),
{
}

/// A node that is free on the right keeps the condition on the left.
pub proof fn law_free_on_the_right_keeps<F: Superpose>(c: BoundaryCondition<F>, r: BoundaryCondition<F>)
    requires
        condition_sum(c, BoundaryCondition::Free, r),
    ensures
        r == c,
{
}

/// Two displacements merge axis by axis: an axis that only one prescribes
/// keeps that one's function, an axis both prescribe gets a superposition of
/// the left's and the right's function, in that order, and an axis neither
/// prescribes stays free.
pub proof fn law_displacements_merge_per_axis<F: Superpose>(
    a: Displacement<F>,
    b: Displacement<F>,
    r: BoundaryCondition<F>,
)
    requires
        condition_sum(BoundaryCondition::Displacement(a), BoundaryCondition::Displacement(b), r),
    ensures
        r is Displacement,
        axis_merged(axes(a).0, axes(b).0, axes(r->Displacement_0).0),
        axis_merged(axes(a).1, axes(b).1, axes(r->Displacement_0).1),
        axis_merged(axes(a).2, axes(b).2, axes(r->Displacement_0).2),
{
}

/// What one axis holds after merging `a` and `b`, said case by case.
pub open spec fn axis_merged<F: Superpose>(a: Option<F>, b: Option<F>, r: Option<F>) -> bool {
    &&& (a is None && b is None) ==> r is None
    &&& (a is Some && b is None) ==> r == a
    &&& (a is None && b is Some) ==> r == b
    &&& (a is Some && b is Some) ==> (r is Some && call_ensures(F::superpose, (a->0, b->0), r->0))
}

} // verus!
