use vstd::prelude::*;

use crate::binary::single::Binary32;
use crate::linalg::Mat2;
use crate::model::MaterialModel;
use crate::model::Response;
use crate::numerics::Numerics;
use crate::particle::Particle;
use crate::wrappers::WithLatentHeat;
use crate::wrappers::WithLatentHeatTable;
use crate::wrappers::WithMixturePhase;
use crate::wrappers::WithPreStress;
use crate::wrappers::first_entry;

verus! {

/// The latent heat of a source is that of its first entry; a source that is not listed has none.
pub proof fn law_first_entry_counts(entries: Seq<(u32, Binary32)>, id: u32)
    ensures
        forall|i: int|
            0 <= i < entries.len() && (#[trigger] entries[i]).0 == id && (forall|k: int|
                0 <= k < i ==> (#[trigger] entries[k]).0 != id) ==> first_entry(entries, id)
                == entries[i].1,
        (forall|i: int| 0 <= i < entries.len() ==> (#[trigger] entries[i]).0 != id)
            ==> first_entry(entries, id) == Binary32::zero(),
    decreases entries.len(),
{
    if entries.len() > 0 && entries[0].0 != id {
        let rest = entries.skip(1);
        law_first_entry_counts(rest, id);
        assert forall|i: int|
            0 <= i < entries.len() && (#[trigger] entries[i]).0 == id && (forall|k: int|
                0 <= k < i ==> (#[trigger] entries[k]).0 != id) implies first_entry(entries, id)
            == entries[i].1 by {
            assert(rest[i - 1] == entries[i]);
            assert forall|k: int| 0 <= k < i - 1 implies (#[trigger] rest[k]).0 != id by {
                assert(rest[k] == entries[k + 1]);
            }
        }
        if forall|i: int| 0 <= i < entries.len() ==> (#[trigger] entries[i]).0 != id {
            assert forall|i: int| 0 <= i < rest.len() implies (#[trigger] rest[i]).0 != id by {
                assert(rest[i] == entries[i + 1]);
            }
        }
    }
}

/// A wrapped material moves and starts its particles as the inner one does; pre-stress sets
/// the internal pressure of a particle that starts, and nothing else.
pub proof fn law_wrapped_particles<M: Response<N>, N: Numerics>(
    a: WithLatentHeat<M>,
    b: WithLatentHeatTable<M>,
    c: WithMixturePhase<M>,
    d: WithPreStress<M>,
    p: Particle,
    dt: Binary32,
    n: &N,
)
    ensures
        a.updated(p, dt, n) == a.inner.updated(p, dt, n),
        b.updated(p, dt, n) == b.inner.updated(p, dt, n),
        c.updated(p, dt, n) == c.inner.updated(p, dt, n),
        d.updated(p, dt, n) == d.inner.updated(p, dt, n),
        a.initialised(p) == a.inner.initialised(p),
        b.initialised(p) == b.inner.initialised(p),
        c.initialised(p) == c.inner.initialised(p),
        d.initialised(p) == (Particle { internal_pressure: d.pressure, ..d.inner.initialised(p) }),
        a.transitioned(p) == a.inner.transitioned(p),
        b.transitioned(p) == b.inner.transitioned(p),
        c.transitioned(p) == c.inner.transitioned(p),
        d.transitioned(p) == (Particle {
            internal_pressure: d.pressure,
            ..d.inner.transitioned(p)
        }),
{
}

/// The stress, the step bound and the volume of a wrapped material are answers of the inner one.
pub proof fn law_with_latent_heat_answers<M: Response<N>, N: Numerics>(
    w: WithLatentHeat<M>,
    p: Particle,
    stress: Mat2,
    density: Binary32,
    hardening_scale: Binary32,
    cell_width: Binary32,
    material_cfl: Binary32,
    viscous_cfl: Binary32,
    bound: Binary32,
    volume: Binary32,
    n: &N,
)
    requires
        call_ensures(<WithLatentHeat<M> as Response<N>>::kirchhoff_stress, (&w, &p, n), stress),
        call_ensures(
            <WithLatentHeat<M> as Response<N>>::timestep_bound,
            (&w, density, hardening_scale, cell_width, material_cfl, viscous_cfl, n),
            bound,
        ),
        call_ensures(<WithLatentHeat<M> as MaterialModel>::stress_volume, (&w, &p), volume),
    ensures
        call_ensures(<M as Response<N>>::kirchhoff_stress, (&w.inner, &p, n), stress),
        call_ensures(
            <M as Response<N>>::timestep_bound,
            (&w.inner, density, hardening_scale, cell_width, material_cfl, viscous_cfl, n),
            bound,
        ),
        call_ensures(<M as MaterialModel>::stress_volume, (&w.inner, &p), volume),
{
}

/// The stress, the step bound and the volume of a wrapped material are answers of the inner one.
pub proof fn law_with_latent_heat_table_answers<M: Response<N>, N: Numerics>(
    w: WithLatentHeatTable<M>,
    p: Particle,
    stress: Mat2,
    density: Binary32,
    hardening_scale: Binary32,
    cell_width: Binary32,
    material_cfl: Binary32,
    viscous_cfl: Binary32,
    bound: Binary32,
    volume: Binary32,
    n: &N,
)
    requires
        call_ensures(<WithLatentHeatTable<M> as Response<N>>::kirchhoff_stress, (&w, &p, n), stress),
        call_ensures(
            <WithLatentHeatTable<M> as Response<N>>::timestep_bound,
            (&w, density, hardening_scale, cell_width, material_cfl, viscous_cfl, n),
            bound,
        ),
        call_ensures(<WithLatentHeatTable<M> as MaterialModel>::stress_volume, (&w, &p), volume),
    ensures
        call_ensures(<M as Response<N>>::kirchhoff_stress, (&w.inner, &p, n), stress),
        call_ensures(
            <M as Response<N>>::timestep_bound,
            (&w.inner, density, hardening_scale, cell_width, material_cfl, viscous_cfl, n),
            bound,
        ),
        call_ensures(<M as MaterialModel>::stress_volume, (&w.inner, &p), volume),
{
}

/// The stress, the step bound and the volume of a wrapped material are answers of the inner one.
pub proof fn law_with_mixture_phase_answers<M: Response<N>, N: Numerics>(
    w: WithMixturePhase<M>,
    p: Particle,
    stress: Mat2,
    density: Binary32,
    hardening_scale: Binary32,
    cell_width: Binary32,
    material_cfl: Binary32,
    viscous_cfl: Binary32,
    bound: Binary32,
    volume: Binary32,
    n: &N,
)
    requires
        call_ensures(<WithMixturePhase<M> as Response<N>>::kirchhoff_stress, (&w, &p, n), stress),
        call_ensures(
            <WithMixturePhase<M> as Response<N>>::timestep_bound,
            (&w, density, hardening_scale, cell_width, material_cfl, viscous_cfl, n),
            bound,
        ),
        call_ensures(<WithMixturePhase<M> as MaterialModel>::stress_volume, (&w, &p), volume),
    ensures
        call_ensures(<M as Response<N>>::kirchhoff_stress, (&w.inner, &p, n), stress),
        call_ensures(
            <M as Response<N>>::timestep_bound,
            (&w.inner, density, hardening_scale, cell_width, material_cfl, viscous_cfl, n),
            bound,
        ),
        call_ensures(<M as MaterialModel>::stress_volume, (&w.inner, &p), volume),
{
}

/// The stress, the step bound and the volume of a wrapped material are answers of the inner one.
pub proof fn law_with_pre_stress_answers<M: Response<N>, N: Numerics>(
    w: WithPreStress<M>,
    p: Particle,
    stress: Mat2,
    density: Binary32,
    hardening_scale: Binary32,
    cell_width: Binary32,
    material_cfl: Binary32,
    viscous_cfl: Binary32,
    bound: Binary32,
    volume: Binary32,
    n: &N,
)
    requires
        call_ensures(<WithPreStress<M> as Response<N>>::kirchhoff_stress, (&w, &p, n), stress),
        call_ensures(
            <WithPreStress<M> as Response<N>>::timestep_bound,
            (&w, density, hardening_scale, cell_width, material_cfl, viscous_cfl, n),
            bound,
        ),
        call_ensures(<WithPreStress<M> as MaterialModel>::stress_volume, (&w, &p), volume),
    ensures
        call_ensures(<M as Response<N>>::kirchhoff_stress, (&w.inner, &p, n), stress),
        call_ensures(
            <M as Response<N>>::timestep_bound,
            (&w.inner, density, hardening_scale, cell_width, material_cfl, viscous_cfl, n),
            bound,
        ),
        call_ensures(<M as MaterialModel>::stress_volume, (&w.inner, &p), volume),
{
}

} // verus!
