//! Outputs, systems and their results.
//!
//! Sensors and disturbances live once in the system's catalogues; an output
//! refers to them by their index there, so that several outputs share them
//! without copies. The values an output reports are produced sensor by
//! sensor by its metric; this module gathers them, in declared order, into
//! one result per output and one results collection per system.
use vstd::prelude::*;

verus! {

/// The reduction applied to the samples of a sensor's probes.
#[derive(Clone, Copy, Debug, PartialEq, Eq, Structural)]
pub enum Metric {
    /// One root-mean-square value per sensor.
    WavefrontError,
    /// The raw value of every probe, in probe order.
    MeasurementVector,
}

/// How many values a metric yields for a sensor with `probes` probes.
pub open spec fn value_count_spec(metric: Metric, probes: nat) -> nat {
    match metric {
        Metric::WavefrontError => 1,
        Metric::MeasurementVector => probes,
    }
}

impl Metric {
    /// How many values this metric yields for a sensor with `probes` probes.
    pub fn value_count(&self, probes: usize) -> (r: usize)
        ensures
            r == value_count_spec(*self, probes as nat),
    {
        match self {
            Metric::WavefrontError => 1,
            Metric::MeasurementVector => probes,
        }
    }
}

/// The ids of a catalogue, as character sequences.
pub open spec fn id_views(ids: Seq<String>) -> Seq<Seq<char>> {
    ids.map_values(|s: String| s@)
}

/// The positions, in ascending order, of the catalogue entries whose id is
/// one of `wanted`.
pub open spec fn selected(catalogue: Seq<Seq<char>>, wanted: Seq<Seq<char>>) -> Seq<usize>
    decreases catalogue.len(),
{
    if catalogue.len() == 0 {
        Seq::empty()
    } else {
        let rest = selected(catalogue.drop_last(), wanted);
        if wanted.contains(catalogue.last()) {
            rest.push((catalogue.len() - 1) as usize)
        } else {
            rest
        }
    }
}

/// Whether `id` is one of `wanted`.
fn contains_id(wanted: &Vec<String>, id: &String) -> (r: bool)
    ensures
        r == id_views(wanted@).contains(id@),
{
    let mut j: usize = 0;
    while j < wanted.len()
        invariant
            j <= wanted.len(),
            forall|k: int| 0 <= k < j ==> (#[trigger] wanted@[k])@ != id@,
        decreases wanted.len() - j,
    {
        if wanted[j] == *id {
            assert(id_views(wanted@)[j as int] == id@);
            return true;
        }
        j = j + 1;
    }
    assert forall|k: int| 0 <= k < id_views(wanted@).len() implies #[trigger] id_views(wanted@)[k]
        != id@ by {
        assert(wanted@[k]@ != id@);
    }
    false
}

/// The positions, in catalogue order, of the entries of `catalogue` whose
/// id is one of `wanted`. Ids in `wanted` that name no entry are ignored.
pub fn select_by_id(catalogue: &Vec<String>, wanted: &Vec<String>) -> (r: Vec<usize>)
    ensures
        r@ == selected(id_views(catalogue@), id_views(wanted@)),
{
    let mut r: Vec<usize> = Vec::new();
    let mut i: usize = 0;
    while i < catalogue.len()
        invariant
            i <= catalogue.len(),
            r@ == selected(id_views(catalogue@).take(i as int), id_views(wanted@)),
        decreases catalogue.len() - i,
    {
        let ghost before = id_views(catalogue@).take(i as int);
        let ghost after = id_views(catalogue@).take(i + 1);
        assert(after.drop_last() =~= before);
        assert(after.last() == catalogue@[i as int]@);
        if contains_id(wanted, &catalogue[i]) {
            r.push(i);
        }
        i = i + 1;
    }
    assert(id_views(catalogue@).take(i as int) =~= id_views(catalogue@));
    r
}

/// A system: its outputs, in declaration order.
pub struct System {
    pub outputs: Vec<Output>,
}

/// A named binding of a metric to some sensors and disturbances, given by
/// their positions in the system's catalogues.
pub struct Output {
    pub id: String,
    pub sensors: Vec<usize>,
    pub disturbances: Vec<usize>,
    pub metric: Metric,
}

/// The values of one output, under the output's id.
pub struct SimulationResult<V> {
    pub id: String,
    pub values: Vec<V>,
}

/// One result per output, in output order.
pub struct SimulationResults<V> {
    pub results: Vec<SimulationResult<V>>,
}

/// The values of all parts, one after the other.
pub open spec fn flatten_parts<V>(parts: Seq<Vec<V>>) -> Seq<V>
    decreases parts.len(),
{
    if parts.len() == 0 {
        Seq::empty()
    } else {
        flatten_parts(parts.drop_last()) + parts.last()@
    }
}

impl Output {
    /// Resolves an output from the ids it names: its sensors and
    /// disturbances are the catalogue entries whose ids it lists, in
    /// catalogue order.
    pub fn resolve(
        id: String,
        metric: Metric,
        sensor_ids: &Vec<String>,
        wanted_sensors: &Vec<String>,
        disturbance_ids: &Vec<String>,
        wanted_disturbances: &Vec<String>,
    ) -> (r: Output)
        ensures
            r.id == id,
            r.metric == metric,
            r.sensors@ == selected(id_views(sensor_ids@), id_views(wanted_sensors@)),
            r.disturbances@ == selected(id_views(disturbance_ids@), id_views(wanted_disturbances@)),
    {
        let sensors = select_by_id(sensor_ids, wanted_sensors);
        let disturbances = select_by_id(disturbance_ids, wanted_disturbances);
        Output { id, sensors, disturbances, metric }
    }

    /// Gathers the values the metric produced for each of this output's
    /// sensors, given in the output's sensor order, into one result.
    pub fn evaluate<V>(&self, per_sensor: Vec<Vec<V>>) -> (r: SimulationResult<V>)
        requires
            per_sensor.len() == self.sensors.len(),
        ensures
            r.id@ == self.id@,
            r.values@ == flatten_parts(per_sensor@),
    {
        let mut result = SimulationResult::new_from_output(self);
        let mut values: Vec<V> = Vec::new();
        let ghost parts = per_sensor@;
        for part in it: per_sensor
            invariant
                it.seq() == parts,
                values@ == flatten_parts(parts.take(it.index() as int)),
        {
            let ghost k = it.index() as int;
            assert(parts.take(k + 1).drop_last() =~= parts.take(k));
            let mut part = part;
            values.append(&mut part);
        }
        assert(parts.take(parts.len() as int) =~= parts);
        result.values = values;
        result
    }
}

/// `r` holds one result per output of `s`, in output order: the output's
/// id with the values of its sensors, taken from `per_output`.
pub open spec fn results_of<V>(
    s: System,
    per_output: Seq<Vec<Vec<V>>>,
    r: SimulationResults<V>,
) -> bool {
    &&& r.results.len() == s.outputs.len()
    &&& forall|i: int|
        0 <= i < s.outputs.len() ==> {
            &&& (#[trigger] r.results@[i]).id@ == s.outputs@[i].id@
            &&& r.results@[i].values@ == flatten_parts(per_output[i]@)
        }
}

/// `per_output` gives, for every output of `s`, one list of values per
/// sensor of that output.
pub open spec fn values_fit<V>(s: System, per_output: Seq<Vec<Vec<V>>>) -> bool {
    &&& per_output.len() == s.outputs.len()
    &&& forall|i: int|
        0 <= i < s.outputs.len() ==> (#[trigger] per_output[i]).len() == s.outputs@[i].sensors.len()
}

impl System {
    /// Gathers the results of every output, in output order; an output
    /// bound to no sensor still has its (empty) result.
    pub fn evaluate<V>(&self, per_output: Vec<Vec<Vec<V>>>) -> (r: SimulationResults<V>)
        requires
            values_fit(*self, per_output@),
        ensures
            results_of(*self, per_output@, r),
    {
        let mut results = SimulationResults::new();
        let ghost parts = per_output@;
        let mut i: usize = 0;
        for per_sensor in it: per_output
            invariant
                it.seq() == parts,
                values_fit(*self, parts),
                i == it.index(),
                results.results.len() == it.index(),
                forall|i: int|
                    0 <= i < it.index() ==> {
                        &&& (#[trigger] results.results@[i]).id@ == self.outputs@[i].id@
                        &&& results.results@[i].values@ == flatten_parts(parts[i]@)
                    },
        {
            let result = self.outputs[i].evaluate(per_sensor);
            results.results.push(result);
            i = i + 1;
        }
        results
    }
}

/// Assembly is a function of its inputs: two evaluations of the same system
/// with the same sensor values give the same ids and values.
pub proof fn lemma_evaluate_repeatable<V>(
    s: System,
    per_output: Seq<Vec<Vec<V>>>,
    r1: SimulationResults<V>,
    r2: SimulationResults<V>,
)
    requires
        results_of(s, per_output, r1),
        results_of(s, per_output, r2),
    ensures
        r1.results.len() == r2.results.len(),
        forall|i: int|
            0 <= i < r1.results.len() ==> (#[trigger] r1.results@[i]).id@ == r2.results@[i].id@
                && r1.results@[i].values@ == r2.results@[i].values@,
{
}

/// Outputs are evaluated independently: the result of an output depends on
/// that output and its own sensor values alone, whatever the other outputs
/// of the two systems are.
pub proof fn lemma_outputs_independent<V>(
    s1: System,
    p1: Seq<Vec<Vec<V>>>,
    r1: SimulationResults<V>,
    i: int,
    s2: System,
    p2: Seq<Vec<Vec<V>>>,
    r2: SimulationResults<V>,
    j: int,
)
    requires
        results_of(s1, p1, r1),
        results_of(s2, p2, r2),
        0 <= i < s1.outputs.len(),
        0 <= j < s2.outputs.len(),
        s1.outputs@[i].id@ == s2.outputs@[j].id@,
        p1[i]@ == p2[j]@,
    ensures
        r1.results@[i].id@ == r2.results@[j].id@,
        r1.results@[i].values@ == r2.results@[j].values@,
{
}

impl<V> SimulationResults<V> {
    /// An empty results collection.
    pub fn new() -> (r: SimulationResults<V>)
        ensures
            r.results.len() == 0,
    {
        SimulationResults { results: Vec::new() }
    }
}

impl<V> Default for SimulationResults<V> {
    fn default() -> (r: SimulationResults<V>)
        ensures
            r.results.len() == 0,
    {
        SimulationResults::new()
    }
}

impl<V> SimulationResult<V> {
    /// An empty result under the output's id.
    pub fn new_from_output(output: &Output) -> (r: SimulationResult<V>)
        ensures
            r.id@ == output.id@,
            r.values@.len() == 0,
    {
        SimulationResult { id: output.id.clone(), values: Vec::new() }
    }
}

} // verus!
