use rao_forward::layout::{Probe, ProbeAxis, SensorKind};

fn probe(row: usize, col: usize, axis: ProbeAxis) -> Probe {
    Probe { row, col, axis }
}

#[test]
fn shack_hartmann_x_slopes_then_y_slopes() {
    let p = SensorKind::ShackHartmann.probes(2);
    assert_eq!(
        p,
        vec![
            probe(0, 0, ProbeAxis::SlopeX),
            probe(0, 1, ProbeAxis::SlopeX),
            probe(1, 0, ProbeAxis::SlopeX),
            probe(1, 1, ProbeAxis::SlopeX),
            probe(0, 0, ProbeAxis::SlopeY),
            probe(0, 1, ProbeAxis::SlopeY),
            probe(1, 0, ProbeAxis::SlopeY),
            probe(1, 1, ProbeAxis::SlopeY),
        ]
    );
}

#[test]
fn imager_one_phase_per_centre() {
    let p = SensorKind::Imager.probes(3);
    assert_eq!(p.len(), 9);
    for (k, q) in p.iter().enumerate() {
        assert_eq!(*q, probe(k / 3, k % 3, ProbeAxis::Phase));
    }
}

#[test]
fn zero_grid_gives_no_probes() {
    assert!(SensorKind::ShackHartmann.probes(0).is_empty());
    assert!(SensorKind::Imager.probes(0).is_empty());
    assert_eq!(SensorKind::ShackHartmann.probe_count(0), 0);
}

#[test]
fn probe_counts() {
    assert_eq!(SensorKind::ShackHartmann.probe_count(4), 32);
    assert_eq!(SensorKind::Imager.probe_count(4), 16);
    assert_eq!(SensorKind::ShackHartmann.probes(4).len(), 32);
    assert_eq!(SensorKind::Imager.probes(5).len(), 25);
}
