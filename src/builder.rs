use vstd::prelude::*;
use crate::planet::Planet;
use crate::starmap::{MapError, Starmap2D, ids_match};

verus! {

/// How many candidates are generated for one id before construction gives up.
pub const DEFAULT_MAX_ATTEMPTS: u64 = 1000;

/// `p` is a candidate that `generate` produced for `id` on one of the first `max`
/// attempts, renumbered to `id`.
pub open spec fn generated_by<G: Fn(usize, u64) -> Planet>(
    generate: G,
    id: usize,
    max: u64,
    p: Planet,
) -> bool {
    exists|a: u64, g: Planet|
        a < max && #[trigger] generate.ensures((id, a), g) && p == (Planet { id, ..g })
}

/// Every earlier body was checked against every later one, and the check passed.
pub open spec fn pairwise_valid<V: Fn(&Planet, &Planet) -> bool>(
    validate: V,
    ps: Seq<Planet>,
) -> bool {
    forall|i: int, j: int|
        0 <= i < j < ps.len() ==> #[trigger] validate.ensures((&ps[i], &ps[j]), true)
}

/// A validator that, having passed a pair one way round, passes it the other way too.
pub open spec fn symmetric<V: Fn(&Planet, &Planet) -> bool>(validate: V) -> bool {
    forall|p: &Planet, q: &Planet|
        #[trigger] validate.ensures((p, q), true) ==> validate.ensures((q, p), true)
}

/// With a symmetric validator, every two distinct bodies of a built map pass it, in
/// either order.
pub proof fn lemma_pairwise_valid_both_orders<V: Fn(&Planet, &Planet) -> bool>(
    validate: V,
    ps: Seq<Planet>,
)
    requires
        symmetric(validate),
        pairwise_valid(validate, ps),
    ensures
        forall|i: int, j: int|
            0 <= i < ps.len() && 0 <= j < ps.len() && i != j ==> #[trigger] validate.ensures(
                (&ps[i], &ps[j]),
                true,
            ),
{
    assert forall|i: int, j: int|
        0 <= i < ps.len() && 0 <= j < ps.len() && i != j implies #[trigger] validate.ensures(
        (&ps[i], &ps[j]),
        true,
    ) by {
        if j < i {
            assert(validate.ensures((&ps[j], &ps[i]), true));
        }
    }
}

/// The candidate that `generate` produced for `id` on attempt `a` was rejected by one of
/// the bodies `acc` accepted before it.
pub open spec fn rejected_at<G: Fn(usize, u64) -> Planet, V: Fn(&Planet, &Planet) -> bool>(
    generate: G,
    validate: V,
    acc: Seq<Planet>,
    id: usize,
    a: u64,
) -> bool {
    exists|g: Planet, k: int|
        generate.ensures((id, a), g) && 0 <= k < acc.len() && #[trigger] validate.ensures(
            (&acc[k], &(Planet { id, ..g })),
            false,
        )
}

/// Construction gave up at `id`: the bodies `acc` before it pass the validator pairwise,
/// and each of the `max` candidates for `id` was rejected by one of them.
pub open spec fn gave_up_at<G: Fn(usize, u64) -> Planet, V: Fn(&Planet, &Planet) -> bool>(
    generate: G,
    validate: V,
    max: u64,
    id: usize,
    acc: Seq<Planet>,
) -> bool {
    &&& acc.len() == id
    &&& pairwise_valid(validate, acc)
    &&& forall|a: u64| a < max ==> #[trigger] rejected_at(generate, validate, acc, id, a)
}

/// The validator accepts every pair.
pub open spec fn never_rejects<V: Fn(&Planet, &Planet) -> bool>(validate: V) -> bool {
    forall|p: &Planet, q: &Planet, out: bool| #[trigger] validate.ensures((p, q), out) ==> out
}

/// The validator rejects every pair.
pub open spec fn never_accepts<V: Fn(&Planet, &Planet) -> bool>(validate: V) -> bool {
    forall|p: &Planet, q: &Planet, out: bool| #[trigger] validate.ensures((p, q), out) ==> !out
}

/// Builds a map of `count` bodies by rejection sampling.
pub struct StarmapBuilder {
    pub count: usize,
    pub max_attempts: u64,
}

impl Starmap2D {
    /// A builder for a map of `count` bodies.
    pub fn new(count: usize) -> (r: StarmapBuilder)
        ensures
            r.count == count,
            r.max_attempts == DEFAULT_MAX_ATTEMPTS,
    {
        StarmapBuilder::new(count)
    }
}

impl StarmapBuilder {
    /// A builder for a map of `count` bodies, with the default retry budget.
    pub fn new(count: usize) -> (r: StarmapBuilder)
        ensures
            r.count == count,
            r.max_attempts == DEFAULT_MAX_ATTEMPTS,
    {
        StarmapBuilder { count, max_attempts: DEFAULT_MAX_ATTEMPTS }
    }

    /// The same builder with `max_attempts` candidates allowed for each id.
    pub fn with_max_attempts(self, max_attempts: u64) -> (r: StarmapBuilder)
        ensures
            r.count == self.count,
            r.max_attempts == max_attempts,
    {
        StarmapBuilder { count: self.count, max_attempts }
    }

    /// Builds the map. For each id in `0..count`, candidates come from
    /// `generate(id, attempt)`; a candidate is checked with `validate(accepted, candidate)`
    /// against every body accepted before it, kept if every check passes, and otherwise
    /// handed to `cleanup` and generated anew. When `max_attempts` candidates for one id
    /// have all been rejected, every body accepted so far is handed to `cleanup` too and
    /// construction fails.
    pub fn build<G, V, C>(self, generate: G, validate: V, cleanup: C) -> (r: Result<
        Starmap2D,
        MapError,
    >) where G: Fn(usize, u64) -> Planet, V: Fn(&Planet, &Planet) -> bool, C: Fn(Planet)
        requires
            forall|id: usize, a: u64| generate.requires((id, a)),
            forall|p: &Planet, q: &Planet| validate.requires((p, q)),
            forall|p: Planet| cleanup.requires((p,)),
        ensures
            r is Err ==> r == Err::<Starmap2D, MapError>(MapError::ConstructionFailure),
            r is Ok ==> {
                let ps = r->Ok_0.planets();
                &&& ps.len() == self.count
                &&& !r->Ok_0.is_destroyed()
                &&& r->Ok_0.wf()
                &&& pairwise_valid(validate, ps)
                &&& forall|i: int|
                    0 <= i < ps.len() ==> generated_by(
                        generate,
                        i as usize,
                        self.max_attempts,
                        #[trigger] ps[i],
                    )
            },
            never_rejects(validate) && self.max_attempts > 0 ==> r is Ok,
            never_accepts(validate) && self.count >= 2 ==> r is Err,
            self.max_attempts == 0 && self.count > 0 ==> r is Err,
            self.count == 0 || (self.count == 1 && self.max_attempts > 0) ==> r is Ok,
            r is Err ==> self.count > 0 && (self.max_attempts == 0 || exists|id: usize, acc: Seq<Planet>|
                id < self.count && #[trigger] gave_up_at(generate, validate, self.max_attempts, id, acc)),
    {
        let mut accepted: Vec<Planet> = Vec::new();
        let mut id: usize = 0;
        while id < self.count
            invariant
                forall|id: usize, a: u64| generate.requires((id, a)),
                forall|p: &Planet, q: &Planet| validate.requires((p, q)),
                forall|p: Planet| cleanup.requires((p,)),
                id <= self.count,
                accepted.len() == id,
                ids_match(accepted@),
                pairwise_valid(validate, accepted@),
                forall|i: int|
                    0 <= i < accepted.len() ==> generated_by(
                        generate,
                        i as usize,
                        self.max_attempts,
                        #[trigger] accepted@[i],
                    ),
                never_accepts(validate) ==> id <= 1,
                self.max_attempts == 0 ==> id == 0,
            decreases self.count - id,
        {
            let mut attempt: u64 = 0;
            let mut placed = false;
            while attempt < self.max_attempts && !placed
                invariant
                    forall|id: usize, a: u64| generate.requires((id, a)),
                    forall|p: &Planet, q: &Planet| validate.requires((p, q)),
                    forall|p: Planet| cleanup.requires((p,)),
                    id < self.count,
                    attempt <= self.max_attempts,
                    accepted.len() == if placed { id + 1 } else { id as int },
                    ids_match(accepted@),
                    pairwise_valid(validate, accepted@),
                    forall|i: int|
                        0 <= i < accepted.len() ==> generated_by(
                            generate,
                            i as usize,
                            self.max_attempts,
                            #[trigger] accepted@[i],
                        ),
                    never_rejects(validate) ==> attempt == 0,
                    never_accepts(validate) && id >= 1 ==> !placed,
                    placed ==> self.max_attempts > 0,
                    !placed ==> forall|a: u64|
                        a < attempt ==> #[trigger] rejected_at(generate, validate, accepted@, id, a),
                    id == 0 ==> attempt == 0,
                decreases self.max_attempts - attempt, if placed { 0int } else { 1int },
            {
                let g = generate(id, attempt);
                let cand = Planet { id, ..g };
                assert(generated_by(generate, id, self.max_attempts, cand));
                let mut ok = true;
                let mut j: usize = 0;
                while j < id && ok
                    invariant
                        forall|p: &Planet, q: &Planet| validate.requires((p, q)),
                        j <= id,
                        accepted.len() == id,
                        ok ==> forall|k: int|
                            0 <= k < j ==> #[trigger] validate.ensures((&accepted@[k], &cand), true),
                        !ok ==> exists|k: int|
                            0 <= k < id && #[trigger] validate.ensures((&accepted@[k], &cand), false),
                    decreases id - j, if ok { 1int } else { 0int },
                {
                    let pass = validate(&accepted[j], &cand);
                    if !pass {
                        ok = false;
                    } else {
                        j = j + 1;
                    }
                }
                if ok {
                    proof {
                        if never_accepts(validate) && id >= 1 {
                            assert(validate.ensures((&accepted@[0], &cand), true));
                        }
                    }
                    let ghost before = accepted@;
                    accepted.push(cand);
                    assert(accepted@[id as int] == cand);
                    assert forall|i: int, k: int|
                        0 <= i < k < accepted@.len() implies #[trigger] validate.ensures(
                        (&accepted@[i], &accepted@[k]),
                        true,
                    ) by {
                        if k < id {
                            assert(accepted@[i] == before[i] && accepted@[k] == before[k]);
                        } else {
                            assert(accepted@[i] == before[i]);
                        }
                    }
                    assert forall|i: int|
                        0 <= i < accepted.len() implies generated_by(
                        generate,
                        i as usize,
                        self.max_attempts,
                        #[trigger] accepted@[i],
                    ) by {
                        if i < id {
                            assert(accepted@[i] == before[i]);
                        }
                    }
                    placed = true;
                } else {
                    proof {
                        let k = choose|k: int|
                            0 <= k < id && #[trigger] validate.ensures((&accepted@[k], &cand), false);
                        assert(generate.ensures((id, attempt), g));
                        assert(validate.ensures((&accepted@[k], &(Planet { id, ..g })), false));
                        assert(rejected_at(generate, validate, accepted@, id, attempt));
                    }
                    cleanup(cand);
                    attempt = attempt + 1;
                }
            }
            if !placed {
                let mut k: usize = 0;
                while k < accepted.len()
                    invariant
                        forall|p: Planet| cleanup.requires((p,)),
                    decreases accepted.len() - k,
                {
                    cleanup(accepted[k]);
                    k = k + 1;
                }
                proof {
                    if self.max_attempts > 0 {
                        assert(gave_up_at(generate, validate, self.max_attempts, id, accepted@));
                    }
                }
                return Err(MapError::ConstructionFailure);
            }
            id = id + 1;
        }
        Ok(Starmap2D::from_planets(accepted))
    }
}

} // verus!
