//! Probe layout of the two sensor kinds.
//!
//! A sensor of grid size `n` has `n * n` centres, laid out row by row: the
//! outer index (`row`) runs along the y axis and the inner one (`col`) along
//! the x axis, so centre `k` sits at row `k / n`, column `k % n`.
//! A Shack-Hartmann sensor measures two slopes per centre: first the x-slope
//! of every centre in grid order, then the y-slope of every centre in the
//! same order. An imager measures one phase per centre, in grid order.
use vstd::arithmetic::div_mod::lemma_fundamental_div_mod_converse;
use vstd::prelude::*;

verus! {

/// The kind of a sensor, which fixes what its probes measure.
#[derive(Clone, Copy, Debug, PartialEq, Eq, Structural)]
pub enum SensorKind {
    ShackHartmann,
    Imager,
}

/// What a single probe measures at its centre.
#[derive(Clone, Copy, Debug, PartialEq, Eq, Structural)]
pub enum ProbeAxis {
    /// Wavefront slope along the sensor's (rotated) local x direction.
    SlopeX,
    /// Wavefront slope along the sensor's (rotated) local y direction.
    SlopeY,
    /// Wavefront phase.
    Phase,
}

/// One probe: the grid centre it is anchored on and what it measures.
#[derive(Clone, Copy, Debug, PartialEq, Eq, Structural)]
pub struct Probe {
    /// Index of the centre along the y axis.
    pub row: usize,
    /// Index of the centre along the x axis.
    pub col: usize,
    pub axis: ProbeAxis,
}

/// The `n * n` probes of one axis over the grid, in row-major order.
pub open spec fn grid_probes(n: nat, axis: ProbeAxis) -> Seq<Probe> {
    Seq::new(n * n, |k: int| Probe { row: (k / n as int) as usize, col: (k % n as int) as usize, axis })
}

/// The probes of a sensor of the given kind and grid size, in order.
pub open spec fn sensor_probes(kind: SensorKind, n: nat) -> Seq<Probe> {
    match kind {
        SensorKind::ShackHartmann => grid_probes(n, ProbeAxis::SlopeX) + grid_probes(n, ProbeAxis::SlopeY),
        SensorKind::Imager => grid_probes(n, ProbeAxis::Phase),
    }
}

/// How many probes a sensor of the given kind and grid size has.
pub open spec fn probe_count_spec(kind: SensorKind, n: nat) -> nat {
    match kind {
        SensorKind::ShackHartmann => 2 * (n * n),
        SensorKind::Imager => n * n,
    }
}

/// The grid size is small enough for the probe list to be indexed.
pub open spec fn layout_fits(kind: SensorKind, n: nat) -> bool {
    probe_count_spec(kind, n) <= usize::MAX
}

/// The probe anchored on the centre at `row`, `col` stands at position
/// `row * n + col` of its axis' run: rows one after the other, columns in
/// order within a row.
pub proof fn lemma_grid_position(n: nat, axis: ProbeAxis, row: nat, col: nat)
    requires
        row < n,
        col < n,
    ensures
        row * n + col < n * n,
        grid_probes(n, axis)[(row * n + col) as int] == (Probe { row: row as usize, col: col as usize, axis }),
{
    assert(row * n + col < n * n) by (nonlinear_arith)
        requires
            row < n,
            col < n,
    ;
    lemma_fundamental_div_mod_converse((row * n + col) as int, n as int, row as int, col as int);
}

/// Appends the probes of one axis over the grid.
fn push_grid(probes: &mut Vec<Probe>, n: usize, axis: ProbeAxis)
    requires
        n * n <= usize::MAX,
    ensures
        final(probes)@ == old(probes)@ + grid_probes(n as nat, axis),
{
    let total: usize = n * n;
    let mut k: usize = 0;
    while k < total
        invariant
            total == n * n,
            k <= total,
            probes@ == old(probes)@ + grid_probes(n as nat, axis).take(k as int),
        decreases total - k,
    {
        proof {
            assert(n > 0) by (nonlinear_arith)
                requires
                    k < n * n,
            ;
            assert(k / n < n && k % n < n) by (nonlinear_arith)
                requires
                    k < n * n,
                    n > 0,
            ;
        }
        probes.push(Probe { row: k / n, col: k % n, axis });
        k = k + 1;
        assert(grid_probes(n as nat, axis).take(k as int) =~= grid_probes(n as nat, axis).take(
            (k - 1) as int,
        ).push(grid_probes(n as nat, axis)[k - 1]));
    }
    assert(grid_probes(n as nat, axis).take(k as int) =~= grid_probes(n as nat, axis));
}

impl SensorKind {
    /// Number of probes of a sensor of this kind with grid size `n`.
    pub fn probe_count(&self, n: usize) -> (r: usize)
        requires
            layout_fits(*self, n as nat),
        ensures
            r == probe_count_spec(*self, n as nat),
    {
        match self {
            SensorKind::ShackHartmann => 2 * (n * n),
            SensorKind::Imager => n * n,
        }
    }

    /// The probes of a sensor of this kind with grid size `n`, in
    /// measurement order. A grid size of zero gives no probes.
    pub fn probes(&self, n: usize) -> (r: Vec<Probe>)
        requires
            layout_fits(*self, n as nat),
        ensures
            r@ == sensor_probes(*self, n as nat),
    {
        let mut r: Vec<Probe> = Vec::new();
        match self {
            SensorKind::ShackHartmann => {
                push_grid(&mut r, n, ProbeAxis::SlopeX);
                push_grid(&mut r, n, ProbeAxis::SlopeY);
            },
            SensorKind::Imager => {
                push_grid(&mut r, n, ProbeAxis::Phase);
            },
        }
        assert(r@ =~= sensor_probes(*self, n as nat));
        r
    }
}

} // verus!
