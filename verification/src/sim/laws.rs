//! What holds of every collision and of every resolved set of bodies,
//! whatever the number type.
use crate::sim::object::Object;
use crate::sim::scalar::Scalar;
use crate::sim::solver;
use vstd::prelude::*;

verus! {

/// Merging conserves momentum. When two free bodies collide, one body takes
/// the place of both: it stands where the first one stood, its mass is the
/// sum `m1 + m2`, and its velocity is `(v1 * m1 + v2 * m2) / (m1 + m2)`. All
/// other bodies stay as they are.
pub proof fn lemma_merge_conserves_momentum<S: Scalar>(bodies: Seq<Object<S>>, i: int, j: int)
    requires
        solver::spec_collides(bodies, i, j),
        !bodies[i].constant_pos,
        !bodies[j].constant_pos,
    ensures
        ({
            let after = solver::spec_after_collision(bodies, i, j);
            let merged = after[if i < j { i } else { i - 1 }];
            &&& after.len() == bodies.len() - 1
            &&& merged.mass == bodies[i].mass.spec_plus(bodies[j].mass)
            &&& merged.velocity == bodies[i].velocity.spec_times(bodies[i].mass).spec_plus(
                bodies[j].velocity.spec_times(bodies[j].mass),
            ).spec_over(bodies[i].mass.spec_plus(bodies[j].mass))
            &&& merged.position == bodies[i].position
            &&& !merged.constant_pos
            &&& forall|k: int|
                0 <= k < bodies.len() && k != i && k != j ==> #[trigger] bodies[k] == after[if k
                    < j {
                    k
                } else {
                    k - 1
                }]
        }),
{
}

/// A pinned body is a sink. When a pinned body and a free body collide, the
/// free body leaves and every other body, the pinned one among them, stays
/// exactly as it is: position, velocity, mass and all.
pub proof fn lemma_pinned_body_is_a_sink<S: Scalar>(bodies: Seq<Object<S>>, i: int, j: int)
    requires
        solver::spec_collides(bodies, i, j),
        bodies[i].constant_pos || bodies[j].constant_pos,
    ensures
        ({
            let free = if bodies[i].constant_pos { j } else { i };
            let after = solver::spec_after_collision(bodies, i, j);
            &&& !bodies[free].constant_pos
            &&& after == bodies.remove(free)
            &&& forall|k: int|
                0 <= k < bodies.len() && k != free ==> #[trigger] bodies[k] == after[if k < free {
                    k
                } else {
                    k - 1
                }]
        }),
{
}

/// Taking a free body out of a sequence leaves its pinned bodies as they are.
proof fn lemma_pinned_without_free_body<S: Scalar>(bodies: Seq<Object<S>>, k: int)
    requires
        0 <= k < bodies.len(),
        !bodies[k].constant_pos,
    ensures
        solver::spec_pinned(bodies.remove(k)) == solver::spec_pinned(bodies),
{
    let pinned = |body: Object<S>| body.constant_pos;
    let head = bodies.subrange(0, k);
    let tail = bodies.subrange(k + 1, bodies.len() as int);
    let middle = seq![bodies[k]];
    assert(bodies == head + middle + tail);
    assert(middle.filter(pinned) == Seq::<Object<S>>::empty()) by {
        reveal_with_fuel(Seq::filter, 2);
        assert(middle.drop_last() == Seq::<Object<S>>::empty());
    }
    Seq::filter_distributes_over_add(head, middle, pinned);
    Seq::filter_distributes_over_add(head + middle, tail, pinned);
    Seq::filter_distributes_over_add(head, tail, pinned);
    assert(head.filter(pinned) + Seq::<Object<S>>::empty() == head.filter(pinned));
}

/// Putting a free body in the place of a free body leaves the pinned bodies
/// as they are.
proof fn lemma_pinned_with_free_body_replaced<S: Scalar>(
    bodies: Seq<Object<S>>,
    k: int,
    body: Object<S>,
)
    requires
        0 <= k < bodies.len(),
        !bodies[k].constant_pos,
        !body.constant_pos,
    ensures
        solver::spec_pinned(bodies.update(k, body)) == solver::spec_pinned(bodies),
{
    lemma_pinned_without_free_body(bodies, k);
    lemma_pinned_without_free_body(bodies.update(k, body), k);
    assert(bodies.update(k, body).remove(k) == bodies.remove(k));
}

/// Resolving one collision leaves the pinned bodies as they are and takes
/// one body away.
proof fn lemma_collision_keeps_pinned<S: Scalar>(bodies: Seq<Object<S>>, i: int, j: int)
    requires
        solver::spec_collides(bodies, i, j),
    ensures
        solver::spec_pinned(solver::spec_after_collision(bodies, i, j)) == solver::spec_pinned(
            bodies,
        ),
        solver::spec_after_collision(bodies, i, j).len() == bodies.len() - 1,
{
    if bodies[i].constant_pos {
        lemma_pinned_without_free_body(bodies, j);
    } else if bodies[j].constant_pos {
        lemma_pinned_without_free_body(bodies, i);
    } else {
        let merged = bodies[i].spec_merged(bodies[j]);
        lemma_pinned_with_free_body_replaced(bodies, i, merged);
        lemma_pinned_without_free_body(bodies.update(i, merged), j);
    }
}

/// Resolution never touches a pinned body. However many collisions are
/// resolved, the pinned bodies afterwards are the pinned bodies from before:
/// the same ones, unchanged, in the same order.
pub proof fn lemma_resolution_keeps_pinned<S: Scalar>(bodies: Seq<Object<S>>)
    ensures
        solver::spec_pinned(solver::spec_resolved(bodies)) == solver::spec_pinned(bodies),
    decreases bodies.len(),
{
    if exists|i: int, j: int| solver::spec_first_collision(bodies, i, j) {
        let (i, j) = choose|i: int, j: int| solver::spec_first_collision(bodies, i, j);
        lemma_collision_keeps_pinned(bodies, i, j);
        lemma_resolution_keeps_pinned(solver::spec_after_collision(bodies, i, j));
    }
}

/// Where some pair collides, a scan meets a first colliding pair.
proof fn lemma_first_collision_exists<S: Scalar>(bodies: Seq<Object<S>>, i: int, j: int)
    requires
        solver::spec_collides(bodies, i, j),
    ensures
        exists|a: int, b: int| solver::spec_first_collision(bodies, a, b),
    decreases i, j,
{
    if forall|a: int, b: int|
        solver::spec_scanned_before(a, b, i, j) ==> !#[trigger] solver::spec_collides(bodies, a, b) {
        assert(solver::spec_first_collision(bodies, i, j));
    } else {
        let (a, b) = choose|a: int, b: int|
            solver::spec_scanned_before(a, b, i, j) && #[trigger] solver::spec_collides(
                bodies,
                a,
                b,
            );
        lemma_first_collision_exists(bodies, a, b);
    }
}

/// No overlap survives resolution. Among the resolved bodies no two collide:
/// any two of them either keep a distance that is not less than the sum of
/// their radii, or are both pinned.
pub proof fn lemma_resolved_is_settled<S: Scalar>(bodies: Seq<Object<S>>)
    ensures
        solver::spec_settled(solver::spec_resolved(bodies)),
        forall|i: int, j: int|
            #![trigger solver::spec_resolved(bodies)[i], solver::spec_resolved(bodies)[j]]
            0 <= i < solver::spec_resolved(bodies).len() && 0 <= j < solver::spec_resolved(
                bodies,
            ).len() && i != j ==> {
                ||| !solver::spec_resolved(bodies)[i].spec_overlaps(
                    solver::spec_resolved(bodies)[j],
                )
                ||| solver::spec_resolved(bodies)[i].constant_pos && solver::spec_resolved(
                    bodies,
                )[j].constant_pos
            },
    decreases bodies.len(),
{
    if exists|i: int, j: int| solver::spec_first_collision(bodies, i, j) {
        let (i, j) = choose|i: int, j: int| solver::spec_first_collision(bodies, i, j);
        lemma_collision_keeps_pinned(bodies, i, j);
        lemma_resolved_is_settled(solver::spec_after_collision(bodies, i, j));
    } else {
        assert forall|i: int, j: int| !#[trigger] solver::spec_collides(bodies, i, j) by {
            if solver::spec_collides(bodies, i, j) {
                lemma_first_collision_exists(bodies, i, j);
            }
        }
    }
    let resolved = solver::spec_resolved(bodies);
    assert forall|i: int, j: int|
        #![trigger resolved[i], resolved[j]]
        0 <= i < resolved.len() && 0 <= j < resolved.len() && i != j implies {
        ||| !resolved[i].spec_overlaps(resolved[j])
        ||| resolved[i].constant_pos && resolved[j].constant_pos
    } by {
        assert(!solver::spec_collides(resolved, i, j));
    }
}

/// Resolving one collision keeps pinned bodies that do not overlap apart.
proof fn lemma_collision_keeps_pinned_apart<S: Scalar>(bodies: Seq<Object<S>>, i: int, j: int)
    requires
        solver::spec_collides(bodies, i, j),
        solver::spec_pinned_apart(bodies),
    ensures
        solver::spec_pinned_apart(solver::spec_after_collision(bodies, i, j)),
{
    let after = solver::spec_after_collision(bodies, i, j);
    let gone = if bodies[i].constant_pos || !bodies[j].constant_pos { j } else { i };
    assert forall|a: int, b: int|
        #![trigger after[a], after[b]]
        0 <= a < after.len() && 0 <= b < after.len() && a != b && after[a].constant_pos
            && after[b].constant_pos implies !after[a].spec_overlaps(after[b]) by {
        let from_a = if a < gone { a } else { a + 1 };
        let from_b = if b < gone { b } else { b + 1 };
        assert(after[a] == bodies[from_a]);
        assert(after[b] == bodies[from_b]);
    }
}

/// No overlap survives resolution. Where no two pinned bodies overlap to
/// begin with, any two of the resolved bodies keep a distance that is not
/// less than the sum of their radii.
pub proof fn lemma_no_overlap_after_resolution<S: Scalar>(bodies: Seq<Object<S>>)
    requires
        solver::spec_pinned_apart(bodies),
    ensures
        solver::spec_apart(solver::spec_resolved(bodies)),
    decreases bodies.len(),
{
    if exists|i: int, j: int| solver::spec_first_collision(bodies, i, j) {
        let (i, j) = choose|i: int, j: int| solver::spec_first_collision(bodies, i, j);
        lemma_collision_keeps_pinned(bodies, i, j);
        lemma_collision_keeps_pinned_apart(bodies, i, j);
        lemma_no_overlap_after_resolution(solver::spec_after_collision(bodies, i, j));
    } else {
        lemma_resolved_is_settled(bodies);
        assert forall|i: int, j: int|
            #![trigger bodies[i], bodies[j]]
            0 <= i < bodies.len() && 0 <= j < bodies.len() && i != j implies !bodies[i].spec_overlaps(
            bodies[j],
        ) by {
            assert(!solver::spec_collides(bodies, i, j));
        }
    }
}

/// No overlap is left after a tick. Where no two pinned bodies overlap to
/// begin with, any two of the bodies that a tick of any length leaves keep a
/// distance that is not less than the sum of their radii.
pub proof fn lemma_no_overlap_after_step<S: Scalar>(bodies: Seq<Object<S>>, g: S, dt: S)
    requires
        solver::spec_pinned_apart(bodies),
    ensures
        solver::spec_apart(solver::spec_stepped(bodies, g, dt)),
{
    let moved = solver::spec_integrated(solver::spec_with_forces(bodies, g), dt);
    assert forall|i: int, j: int|
        #![trigger moved[i], moved[j]]
        0 <= i < moved.len() && 0 <= j < moved.len() && i != j && moved[i].constant_pos
            && moved[j].constant_pos implies !moved[i].spec_overlaps(moved[j]) by {
        assert(moved[i] == bodies[i]);
        assert(moved[j] == bodies[j]);
    }
    lemma_no_overlap_after_resolution(moved);
}

} // verus!
