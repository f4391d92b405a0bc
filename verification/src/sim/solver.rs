use crate::sim::object::Object;
use crate::sim::scalar::Scalar;
use crate::sim::vec2::Vec2;
use vstd::prelude::*;

verus! {

/// The gravitational constant that a new solver starts with.
pub const GRAVITATIONAL_CONST: u32 = 500;

/// The number of moves into which a trajectory preview divides one unit of
/// time.
pub const TRAJECTORY_RESOLUTION: u32 = 2;

/// Why the solver turned a request down.
#[derive(Clone, Copy, Debug, PartialEq, Eq)]
pub enum SolverError {
    /// The mass of a body is not greater than zero.
    InvalidBody,
}

/// The live bodies of a simulation, in the order in which they were added,
/// and the gravitational constant that acts between them.
#[derive(Clone)]
pub struct Solver<S: Scalar> {
    pub objects: Vec<Object<S>>,
    pub gravity: S,
}

/// The net force on `on` from the first `upto` bodies of `bodies`, summed in
/// index order from zero; the body at index `skip` is left out.
pub open spec fn spec_pull<S: Scalar>(
    bodies: Seq<Object<S>>,
    g: S,
    on: Object<S>,
    skip: int,
    upto: int,
) -> Vec2<S>
    decreases upto,
{
    if upto <= 0 {
        Vec2::spec_zero()
    } else if upto - 1 == skip {
        spec_pull(bodies, g, on, skip, upto - 1)
    } else {
        spec_pull(bodies, g, on, skip, upto - 1).spec_plus(on.spec_attraction(bodies[upto - 1], g))
    }
}

/// The time step of one move of a trajectory preview.
pub open spec fn spec_preview_step<S: Scalar>() -> S {
    S::spec_from_u32(1).spec_over(S::spec_from_u32(TRAJECTORY_RESOLUTION))
}

/// Whether a previewed body that moved from `previous` to where it stands
/// has run into one of `bodies`.
pub open spec fn spec_blocked<S: Scalar>(
    bodies: Seq<Object<S>>,
    candidate: Object<S>,
    previous: Vec2<S>,
) -> bool {
    exists|k: int| 0 <= k < bodies.len() && #[trigger] candidate.spec_blocked_by(previous, bodies[k])
}

/// The positions that a previewed body passes through in at most `steps`
/// moves among `bodies`, which pull on it and are not moved by it. The path
/// starts with the position at which the body stands and ends before the
/// first position at which it is blocked.
pub open spec fn spec_path<S: Scalar>(
    bodies: Seq<Object<S>>,
    g: S,
    candidate: Object<S>,
    previous: Vec2<S>,
    steps: nat,
) -> Seq<Vec2<S>>
    decreases steps,
{
    if steps == 0 || spec_blocked(bodies, candidate, previous) {
        Seq::empty()
    } else {
        let force = spec_pull(bodies, g, candidate, -1, bodies.len() as int);
        let moved = candidate.spec_pushed(force, spec_preview_step());
        seq![candidate.position] + spec_path(
            bodies,
            g,
            moved,
            candidate.position,
            (steps - 1) as nat,
        )
    }
}

/// The trajectory preview of `object` over `t` units of time: nothing for a
/// pinned body, and otherwise its path over `t * TRAJECTORY_RESOLUTION` moves.
pub open spec fn spec_trajectory<S: Scalar>(
    bodies: Seq<Object<S>>,
    g: S,
    object: Object<S>,
    t: u64,
) -> Seq<Vec2<S>> {
    if object.constant_pos {
        Seq::empty()
    } else {
        spec_path(bodies, g, object, object.position, (t * TRAJECTORY_RESOLUTION) as nat)
    }
}

/// Whether the bodies at the distinct indices `i` and `j` collide: they
/// overlap, and at least one of them is free to move. Two pinned bodies
/// never collide, however close they are.
pub open spec fn spec_collides<S: Scalar>(bodies: Seq<Object<S>>, i: int, j: int) -> bool {
    &&& 0 <= i < bodies.len()
    &&& 0 <= j < bodies.len()
    &&& i != j
    &&& !(bodies[i].constant_pos && bodies[j].constant_pos)
    &&& bodies[i].spec_overlaps(bodies[j])
}

/// Whether the scan over all pairs looks at `(a, b)` before `(i, j)`.
pub open spec fn spec_scanned_before(a: int, b: int, i: int, j: int) -> bool {
    a < i || (a == i && b < j)
}

/// Whether `(i, j)` is the first colliding pair that a scan over all pairs
/// meets.
pub open spec fn spec_first_collision<S: Scalar>(bodies: Seq<Object<S>>, i: int, j: int) -> bool {
    &&& spec_collides(bodies, i, j)
    &&& forall|a: int, b: int|
        spec_scanned_before(a, b, i, j) ==> !#[trigger] spec_collides(bodies, a, b)
}

/// Whether no two bodies collide.
pub open spec fn spec_settled<S: Scalar>(bodies: Seq<Object<S>>) -> bool {
    forall|i: int, j: int| !#[trigger] spec_collides(bodies, i, j)
}

/// The bodies after the collision of the pair `(i, j)` has been resolved.
/// A pinned body swallows the other one without a trace. Of two free bodies
/// the one at `i` survives as the merger of both and the one at `j` leaves.
/// Two pinned bodies stay as they are.
pub open spec fn spec_after_collision<S: Scalar>(
    bodies: Seq<Object<S>>,
    i: int,
    j: int,
) -> Seq<Object<S>> {
    if bodies[i].constant_pos && bodies[j].constant_pos {
        bodies
    } else if bodies[i].constant_pos {
        bodies.remove(j)
    } else if bodies[j].constant_pos {
        bodies.remove(i)
    } else {
        bodies.update(i, bodies[i].spec_merged(bodies[j])).remove(j)
    }
}

/// The bodies that are left once every collision has been resolved: as long
/// as some pair collides, the first such pair of a fresh scan is resolved.
pub open spec fn spec_resolved<S: Scalar>(bodies: Seq<Object<S>>) -> Seq<Object<S>>
    decreases bodies.len(),
{
    if exists|i: int, j: int| spec_first_collision(bodies, i, j) {
        let (i, j) = choose|i: int, j: int| spec_first_collision(bodies, i, j);
        spec_resolved(spec_after_collision(bodies, i, j))
    } else {
        bodies
    }
}

/// The pairs of indices that are resolved on the way to `spec_resolved`, in
/// the order in which they are met; each pair holds the indices that the two
/// bodies had when they collided.
pub open spec fn spec_collisions<S: Scalar>(bodies: Seq<Object<S>>) -> Seq<(int, int)>
    decreases bodies.len(),
{
    if exists|i: int, j: int| spec_first_collision(bodies, i, j) {
        let (i, j) = choose|i: int, j: int| spec_first_collision(bodies, i, j);
        seq![(i, j)] + spec_collisions(spec_after_collision(bodies, i, j))
    } else {
        Seq::empty()
    }
}

/// The index pairs that a list of two-element arrays holds.
pub open spec fn spec_pairs(recorded: Seq<[usize; 2]>) -> Seq<(int, int)> {
    Seq::new(recorded.len(), |k: int| (recorded[k]@[0] as int, recorded[k]@[1] as int))
}

/// The pinned bodies among `bodies`, in their order.
pub open spec fn spec_pinned<S: Scalar>(bodies: Seq<Object<S>>) -> Seq<Object<S>> {
    bodies.filter(|body: Object<S>| body.constant_pos)
}

/// Whether no two pinned bodies overlap.
pub open spec fn spec_pinned_apart<S: Scalar>(bodies: Seq<Object<S>>) -> bool {
    forall|i: int, j: int|
        #![trigger bodies[i], bodies[j]]
        0 <= i < bodies.len() && 0 <= j < bodies.len() && i != j && bodies[i].constant_pos
            && bodies[j].constant_pos ==> !bodies[i].spec_overlaps(bodies[j])
}

/// Whether no two bodies overlap.
pub open spec fn spec_apart<S: Scalar>(bodies: Seq<Object<S>>) -> bool {
    forall|i: int, j: int|
        #![trigger bodies[i], bodies[j]]
        0 <= i < bodies.len() && 0 <= j < bodies.len() && i != j ==> !bodies[i].spec_overlaps(
            bodies[j],
        )
}

/// A scan meets at most one first colliding pair.
pub proof fn lemma_first_collision_unique<S: Scalar>(
    bodies: Seq<Object<S>>,
    i: int,
    j: int,
    a: int,
    b: int,
)
    requires
        spec_first_collision(bodies, i, j),
        spec_first_collision(bodies, a, b),
    ensures
        i == a,
        j == b,
{
    if spec_scanned_before(a, b, i, j) {
        assert(!spec_collides(bodies, a, b));
    }
    if spec_scanned_before(i, j, a, b) {
        assert(!spec_collides(bodies, i, j));
    }
}

/// The bodies with their net forces brought up to date: every free body
/// stores the pull of all the others on it; a pinned body keeps what it has
/// stored.
pub open spec fn spec_with_forces<S: Scalar>(bodies: Seq<Object<S>>, g: S) -> Seq<Object<S>> {
    Seq::new(
        bodies.len(),
        |i: int|
            if bodies[i].constant_pos {
                bodies[i]
            } else {
                Object {
                    acceleration: spec_pull(bodies, g, bodies[i], i, bodies.len() as int),
                    ..bodies[i]
                }
            },
    )
}

/// The bodies after each has made one integration step of length `dt`.
pub open spec fn spec_integrated<S: Scalar>(bodies: Seq<Object<S>>, dt: S) -> Seq<Object<S>> {
    Seq::new(bodies.len(), |i: int| bodies[i].spec_integrated(dt))
}

/// The bodies after one full tick of length `dt`: forces, integration, and
/// the resolution of all collisions.
pub open spec fn spec_stepped<S: Scalar>(bodies: Seq<Object<S>>, g: S, dt: S) -> Seq<Object<S>> {
    spec_resolved(spec_integrated(spec_with_forces(bodies, g), dt))
}

/// The sum of `mass * position` over the first `upto` bodies, in index order
/// from zero.
pub open spec fn spec_mass_moment<S: Scalar>(bodies: Seq<Object<S>>, upto: int) -> Vec2<S>
    decreases upto,
{
    if upto <= 0 {
        Vec2::spec_zero()
    } else {
        spec_mass_moment(bodies, upto - 1).spec_plus(
            bodies[upto - 1].position.spec_times(bodies[upto - 1].mass),
        )
    }
}

/// The sum of the masses of the first `upto` bodies, in index order from
/// zero.
pub open spec fn spec_total_mass<S: Scalar>(bodies: Seq<Object<S>>, upto: int) -> S
    decreases upto,
{
    if upto <= 0 {
        S::spec_from_u32(0)
    } else {
        spec_total_mass(bodies, upto - 1).spec_plus(bodies[upto - 1].mass)
    }
}

/// The centre of mass of the bodies, `sum(mass * position) / sum(mass)`. It
/// is undefined when there is no body or when the total mass is not greater
/// than zero.
pub open spec fn spec_center_of_mass<S: Scalar>(bodies: Seq<Object<S>>) -> Option<Vec2<S>> {
    let total = spec_total_mass(bodies, bodies.len() as int);
    if bodies.len() == 0 || !S::spec_from_u32(0).spec_less(total) {
        None
    } else {
        Some(spec_mass_moment(bodies, bodies.len() as int).spec_over(total))
    }
}

impl<S: Scalar> Solver<S> {
    /// A solver without bodies, with the default gravitational constant.
    pub fn new() -> (solver: Solver<S>)
        ensures
            solver.objects@ == Seq::<Object<S>>::empty(),
            solver.gravity == S::spec_from_u32(GRAVITATIONAL_CONST),
    {
        Solver { objects: Vec::new(), gravity: S::from_u32(GRAVITATIONAL_CONST) }
    }

    /// Adds a body to the end of the live bodies, with no net force stored
    /// yet. A mass that is not greater than zero is turned down, and nothing
    /// changes.
    pub fn add_object(
        &mut self,
        position: Vec2<S>,
        velocity: Vec2<S>,
        constant_pos: bool,
        mass: S,
    ) -> (added: Result<(), SolverError>)
        ensures
            final(self).gravity == old(self).gravity,
            S::spec_from_u32(0).spec_less(mass) ==> added == Ok::<(), SolverError>(())
                && final(self).objects@ == old(self).objects@.push(
                Object { position, velocity, acceleration: Vec2::spec_zero(), constant_pos, mass },
            ),
            !S::spec_from_u32(0).spec_less(mass) ==> added == Err::<(), SolverError>(
                SolverError::InvalidBody,
            ) && final(self).objects@ == old(self).objects@,
    {
        if !S::from_u32(0).less(mass) {
            return Err(SolverError::InvalidBody);
        }
        self.objects.push(
            Object { position, velocity, mass, constant_pos, acceleration: Vec2::zero() },
        );
        Ok(())
    }

    /// The live bodies, in the order in which they were added.
    pub fn bodies(&self) -> (bodies: &Vec<Object<S>>)
        ensures
            bodies@ == self.objects@,
    {
        &self.objects
    }

    /// Removes every body.
    pub fn clear_bodies(&mut self)
        ensures
            final(self).objects@ == Seq::<Object<S>>::empty(),
            final(self).gravity == old(self).gravity,
    {
        self.objects.clear();
    }

    /// Removes the body that was added last, if there is one.
    pub fn remove_last_body(&mut self)
        ensures
            final(self).objects@ == (if old(self).objects@.len() == 0 {
                old(self).objects@
            } else {
                old(self).objects@.drop_last()
            }),
            final(self).gravity == old(self).gravity,
    {
        self.objects.pop();
    }

    /// Brings the stored net force of every free body up to date. All forces
    /// are computed from the bodies as they stand before the call.
    pub fn solve_accelerations(&mut self)
        ensures
            final(self).objects@ == spec_with_forces(old(self).objects@, old(self).gravity),
            final(self).gravity == old(self).gravity,
    {
        let n = self.objects.len();
        let mut sums: Vec<Vec2<S>> = Vec::new();
        let mut idx: usize = 0;
        while idx < n
            invariant
                *self == *old(self),
                n == self.objects.len(),
                idx <= n,
                sums.len() == idx,
                forall|k: int|
                    0 <= k < idx ==> #[trigger] sums@[k] == spec_pull(
                        self.objects@,
                        self.gravity,
                        self.objects@[k],
                        k,
                        n as int,
                    ),
            decreases n - idx,
        {
            let body = self.objects[idx];
            let sum = self.pull(&body, idx);
            sums.push(sum);
            idx = idx + 1;
        }
        let mut idx: usize = 0;
        while idx < n
            invariant
                self.gravity == old(self).gravity,
                n == self.objects.len(),
                n == old(self).objects.len(),
                n == sums.len(),
                idx <= n,
                forall|k: int|
                    0 <= k < n ==> #[trigger] sums@[k] == spec_pull(
                        old(self).objects@,
                        old(self).gravity,
                        old(self).objects@[k],
                        k,
                        n as int,
                    ),
                forall|k: int|
                    0 <= k < idx ==> #[trigger] self.objects@[k] == spec_with_forces(
                        old(self).objects@,
                        old(self).gravity,
                    )[k],
                forall|k: int| idx <= k < n ==> #[trigger] self.objects@[k] == old(self).objects@[k],
            decreases n - idx,
        {
            let body = self.objects[idx];
            if !body.constant_pos {
                self.objects.set(idx, Object { acceleration: sums[idx], ..body });
            }
            idx = idx + 1;
        }
        assert(self.objects@ =~= spec_with_forces(old(self).objects@, old(self).gravity));
    }

    /// Moves every free body by one semi-implicit Euler step of length `dt`:
    /// first the velocity, then the position with the new velocity.
    pub fn solve_euler(&mut self, dt: S)
        ensures
            final(self).objects@ == spec_integrated(old(self).objects@, dt),
            final(self).gravity == old(self).gravity,
    {
        let n = self.objects.len();
        let mut idx: usize = 0;
        while idx < n
            invariant
                self.gravity == old(self).gravity,
                n == self.objects.len(),
                n == old(self).objects.len(),
                idx <= n,
                forall|k: int|
                    0 <= k < idx ==> #[trigger] self.objects@[k] == old(
                        self,
                    ).objects@[k].spec_integrated(dt),
                forall|k: int| idx <= k < n ==> #[trigger] self.objects@[k] == old(self).objects@[k],
            decreases n - idx,
        {
            let body = self.objects[idx];
            self.objects.set(idx, body.integrated(dt));
            idx = idx + 1;
        }
        assert(self.objects@ =~= spec_integrated(old(self).objects@, dt));
    }

    /// Runs one full tick of length `dt`: forces, integration, collisions.
    /// Afterwards no two bodies collide; where no two pinned bodies overlapped
    /// before, no two bodies overlap afterwards.
    pub fn solve_all(&mut self, dt: S)
        ensures
            final(self).objects@ == spec_stepped(old(self).objects@, old(self).gravity, dt),
            final(self).gravity == old(self).gravity,
            spec_settled(final(self).objects@),
            spec_pinned_apart(old(self).objects@) ==> spec_apart(final(self).objects@),
    {
        proof {
            if spec_pinned_apart(self.objects@) {
                crate::sim::laws::lemma_no_overlap_after_step(self.objects@, self.gravity, dt);
            }
        }
        self.solve_accelerations();
        self.solve_euler(dt);
        self.destroy_collisions();
    }

    /// The centre of mass of the live bodies, or `None` where it is
    /// undefined.
    pub fn center_of_mass(&self) -> (center: Option<Vec2<S>>)
        ensures
            center == spec_center_of_mass(self.objects@),
    {
        let n = self.objects.len();
        let mut massxpos = Vec2::zero();
        let mut masses = S::from_u32(0);
        let mut idx: usize = 0;
        while idx < n
            invariant
                n == self.objects.len(),
                idx <= n,
                massxpos == spec_mass_moment(self.objects@, idx as int),
                masses == spec_total_mass(self.objects@, idx as int),
            decreases n - idx,
        {
            let body = &self.objects[idx];
            massxpos = massxpos + body.position * body.mass;
            masses = masses.plus(body.mass);
            idx = idx + 1;
        }
        if n == 0 || !S::from_u32(0).less(masses) {
            None
        } else {
            Some(massxpos / masses)
        }
    }

    /// The net force of all live bodies on `on`, leaving out the body at
    /// index `skip` (pass `objects.len()` to leave out none).
    fn pull(&self, on: &Object<S>, skip: usize) -> (force: Vec2<S>)
        requires
            skip <= self.objects.len(),
        ensures
            force == spec_pull(
                self.objects@,
                self.gravity,
                *on,
                if skip < self.objects.len() { skip as int } else { -1 },
                self.objects.len() as int,
            ),
    {
        let n = self.objects.len();
        let ghost left_out: int = if skip < n { skip as int } else { -1 };
        let mut force = Vec2::zero();
        let mut k: usize = 0;
        while k < n
            invariant
                n == self.objects.len(),
                k <= n,
                left_out == (if skip < n { skip as int } else { -1 }),
                force == spec_pull(self.objects@, self.gravity, *on, left_out, k as int),
            decreases n - k,
        {
            if k != skip {
                force = force + on.attraction(&self.objects[k], self.gravity);
            }
            k = k + 1;
        }
        force
    }

    /// Whether a previewed body that moved from `previous` to where it stands
    /// has run into a live body.
    fn blocked(&self, candidate: &Object<S>, previous: Vec2<S>) -> (r: bool)
        ensures
            r == spec_blocked(self.objects@, *candidate, previous),
    {
        let n = self.objects.len();
        let mut k: usize = 0;
        while k < n
            invariant
                n == self.objects.len(),
                k <= n,
                forall|m: int| 0 <= m < k ==> !#[trigger] candidate.spec_blocked_by(previous, self.objects@[m]),
            decreases n - k,
        {
            if candidate.blocked_by(previous, &self.objects[k]) {
                return true;
            }
            k = k + 1;
        }
        false
    }

    /// Previews the path of `object`, a body that is not among the live ones,
    /// over `t` units of time. The live bodies pull on it and stay where they
    /// are. The result holds the position before each move, and ends before
    /// the first position at which the body would touch a live body or would
    /// have jumped across one.
    pub fn trajectory(&self, object: Object<S>, t: u64) -> (locations: Vec<Vec2<S>>)
        ensures
            locations@ == spec_trajectory(self.objects@, self.gravity, object, t),
    {
        let mut locations: Vec<Vec2<S>> = Vec::new();
        if object.constant_pos {
            return locations;
        }
        let dt = S::from_u32(1).over(S::from_u32(TRAJECTORY_RESOLUTION));
        let mut body = object;
        let mut old_position = object.position;
        let ghost total: nat = (t * TRAJECTORY_RESOLUTION) as nat;
        let mut unit: u64 = 0;
        while unit < t
            invariant
                unit <= t,
                dt == spec_preview_step::<S>(),
                total == t * TRAJECTORY_RESOLUTION,
                !object.constant_pos,
                locations@ + spec_path(
                    self.objects@,
                    self.gravity,
                    body,
                    old_position,
                    (total - unit * TRAJECTORY_RESOLUTION) as nat,
                ) == spec_path(self.objects@, self.gravity, object, object.position, total),
            decreases t - unit,
        {
            let mut part: u32 = 0;
            while part < TRAJECTORY_RESOLUTION
                invariant
                    unit < t,
                    part <= TRAJECTORY_RESOLUTION,
                    dt == spec_preview_step::<S>(),
                    total == t * TRAJECTORY_RESOLUTION,
                    !object.constant_pos,
                    locations@ + spec_path(
                        self.objects@,
                        self.gravity,
                        body,
                        old_position,
                        (total - unit * TRAJECTORY_RESOLUTION - part) as nat,
                    ) == spec_path(self.objects@, self.gravity, object, object.position, total),
                decreases TRAJECTORY_RESOLUTION - part,
            {
                let ghost rest = spec_path(
                    self.objects@,
                    self.gravity,
                    body,
                    old_position,
                    (total - unit * TRAJECTORY_RESOLUTION - part) as nat,
                );
                if self.blocked(&body, old_position) {
                    assert(rest == Seq::<Vec2<S>>::empty());
                    assert(locations@ + rest == locations@);
                    return locations;
                }
                let force = self.pull(&body, self.objects.len());
                old_position = body.position;
                body = body.pushed(force, dt);
                locations.push(old_position);
                part = part + 1;
                assert(locations@ + spec_path(
                    self.objects@,
                    self.gravity,
                    body,
                    old_position,
                    (total - unit * TRAJECTORY_RESOLUTION - part) as nat,
                ) == locations@.drop_last() + rest);
            }
            unit = unit + 1;
        }
        assert(locations@ + Seq::<Vec2<S>>::empty() == locations@);
        locations
    }

    /// The first colliding pair that a scan over all pairs meets, if any.
    pub fn first_collision(&self) -> (found: Option<(usize, usize)>)
        ensures
            match found {
                Some((i, j)) => spec_first_collision(self.objects@, i as int, j as int),
                None => spec_settled(self.objects@),
            },
    {
        let n = self.objects.len();
        let mut idx: usize = 0;
        while idx < n
            invariant
                n == self.objects.len(),
                idx <= n,
                forall|a: int, b: int| a < idx ==> !#[trigger] spec_collides(self.objects@, a, b),
            decreases n - idx,
        {
            let mut jdx: usize = 0;
            while jdx < n
                invariant
                    n == self.objects.len(),
                    idx < n,
                    jdx <= n,
                    forall|a: int, b: int|
                        spec_scanned_before(a, b, idx as int, jdx as int) ==> !#[trigger] spec_collides(
                            self.objects@,
                            a,
                            b,
                        ),
                decreases n - jdx,
            {
                if idx != jdx {
                    let first = &self.objects[idx];
                    let second = &self.objects[jdx];
                    if !(first.constant_pos && second.constant_pos) && first.overlaps(second) {
                        return Some((idx, jdx));
                    }
                }
                jdx = jdx + 1;
            }
            idx = idx + 1;
        }
        None
    }

    /// Resolves the collision of the bodies at `idx` and `jdx`.
    pub fn collide(&mut self, idx: usize, jdx: usize)
        requires
            idx < old(self).objects.len(),
            jdx < old(self).objects.len(),
            idx != jdx,
        ensures
            final(self).objects@ == spec_after_collision(old(self).objects@, idx as int, jdx as int),
            final(self).gravity == old(self).gravity,
    {
        let first = self.objects[idx];
        let second = self.objects[jdx];
        if first.constant_pos && second.constant_pos {
        } else if first.constant_pos {
            self.objects.remove(jdx);
        } else if second.constant_pos {
            self.objects.remove(idx);
        } else {
            self.objects.set(idx, first.merged(&second));
            self.objects.remove(jdx);
        }
    }

    /// Resolves every collision among the live bodies. The pairs are scanned
    /// in index order; the first colliding pair is resolved, and the scan
    /// starts over, until a whole scan meets no collision. Returns the
    /// resolved pairs, each with the indices that the two bodies had when
    /// they collided.
    pub fn destroy_collisions(&mut self) -> (collisions: Vec<[usize; 2]>)
        ensures
            final(self).objects@ == spec_resolved(old(self).objects@),
            final(self).gravity == old(self).gravity,
            spec_pairs(collisions@) == spec_collisions(old(self).objects@),
            spec_settled(final(self).objects@),
            spec_pinned_apart(old(self).objects@) ==> spec_apart(final(self).objects@),
    {
        proof {
            if spec_pinned_apart(self.objects@) {
                crate::sim::laws::lemma_no_overlap_after_resolution(self.objects@);
            }
        }
        let mut collisions: Vec<[usize; 2]> = Vec::new();
        loop
            invariant
                self.gravity == old(self).gravity,
                spec_resolved(self.objects@) == spec_resolved(old(self).objects@),
                spec_pairs(collisions@) + spec_collisions(self.objects@) == spec_collisions(
                    old(self).objects@,
                ),
            ensures
                self.gravity == old(self).gravity,
                self.objects@ == spec_resolved(old(self).objects@),
                spec_pairs(collisions@) == spec_collisions(old(self).objects@),
                spec_settled(self.objects@),
            decreases self.objects.len(),
        {
            let ghost before = self.objects@;
            let ghost recorded = collisions@;
            match self.first_collision() {
                None => {
                    assert(spec_pairs(collisions@) + Seq::<(int, int)>::empty() == spec_pairs(
                        collisions@,
                    ));
                    break ;
                },
                Some((idx, jdx)) => {
                    proof {
                        let (i, j) = choose|i: int, j: int| spec_first_collision(before, i, j);
                        lemma_first_collision_unique(before, i, j, idx as int, jdx as int);
                    }
                    collisions.push([idx, jdx]);
                    self.collide(idx, jdx);
                    assert(spec_pairs(collisions@) == spec_pairs(recorded) + seq![
                        (idx as int, jdx as int),
                    ]);
                },
            }
        }
        collisions
    }
}

} // verus!
