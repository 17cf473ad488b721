use dpm_sim::boundary_condition::{BoundaryAverageKind, BoundaryCondition, Displacement, Superpose};
use dpm_sim::export::{
    elements_file_name, file_name, points_header, selected_values, stress_header, Component, ExportFile,
    ExportFormat,
};
use dpm_sim::lock::{lock, release, LockDepth};
use dpm_sim::recording::{EngineCommand, Selection};
use dpm_sim::run_state::{CourantBand, Phase, RunState, TimeStepChange};

/// A time function for the tests: a constant, superposed by adding.
#[derive(Debug, Clone, Copy, PartialEq)]
struct Constant(i64);

impl Superpose for Constant {
    fn superpose(self, other: Self) -> Self {
        Constant(self.0 + other.0)
    }
}

fn axes(d: &Displacement<Constant>) -> (Option<i64>, Option<i64>, Option<i64>) {
    match d {
        Displacement::X(x) => (Some(x.0), None, None),
        Displacement::Y(y) => (None, Some(y.0), None),
        Displacement::Z(z) => (None, None, Some(z.0)),
        Displacement::XY(x, y) => (Some(x.0), Some(y.0), None),
        Displacement::XZ(x, z) => (Some(x.0), None, Some(z.0)),
        Displacement::YZ(y, z) => (None, Some(y.0), Some(z.0)),
        Displacement::XYZ(x, y, z) => (Some(x.0), Some(y.0), Some(z.0)),
    }
}

#[test]
fn displacements_merge_axis_by_axis() {
    let a = Displacement::XY(Constant(1), Constant(2));
    let b = Displacement::YZ(Constant(10), Constant(20));
    let r = a.add(b);
    assert!(matches!(r, Displacement::XYZ(_, _, _)));
    assert_eq!(axes(&r), (Some(1), Some(12), Some(20)));
    let r = Displacement::X(Constant(3)).add(Displacement::Z(Constant(4)));
    assert!(matches!(r, Displacement::XZ(_, _)));
    assert_eq!(axes(&r), (Some(3), None, Some(4)));
    let r = Displacement::Y(Constant(3)).add(Displacement::Y(Constant(4)));
    assert_eq!(axes(&r), (None, Some(7), None));
    assert_eq!(r.prescribed_axes(), (false, true, false));
}

#[test]
fn free_node_adds_nothing() {
    let c = BoundaryCondition::Force(Constant(1), Constant(2), Constant(3));
    match BoundaryCondition::Free.add(c.clone()) {
        BoundaryCondition::Force(x, y, z) => assert_eq!((x, y, z), (Constant(1), Constant(2), Constant(3))),
        _ => panic!("expected a force"),
    }
    match c.add(BoundaryCondition::Free) {
        BoundaryCondition::Force(x, y, z) => assert_eq!((x, y, z), (Constant(1), Constant(2), Constant(3))),
        _ => panic!("expected a force"),
    }
}

#[test]
fn displacement_outweighs_force() {
    let f = BoundaryCondition::Force(Constant(1), Constant(1), Constant(1));
    let d = BoundaryCondition::Displacement(Displacement::Z(Constant(5)));
    for r in [f.clone().add(d.clone()), d.clone().add(f.clone())] {
        match r {
            BoundaryCondition::Displacement(Displacement::Z(z)) => assert_eq!(z, Constant(5)),
            _ => panic!("expected the displacement"),
        }
    }
    match f.clone().add(f) {
        BoundaryCondition::Force(x, y, z) => assert_eq!((x, y, z), (Constant(2), Constant(2), Constant(2))),
        _ => panic!("expected a force"),
    }
}

#[test]
fn conditions_sum_from_a_free_node() {
    let items = vec![
        BoundaryCondition::Free,
        BoundaryCondition::Displacement(Displacement::X(Constant(1))),
        BoundaryCondition::Force(Constant(9), Constant(9), Constant(9)),
        BoundaryCondition::Displacement(Displacement::XZ(Constant(2), Constant(3))),
    ];
    match BoundaryCondition::sum(items) {
        BoundaryCondition::Displacement(d) => assert_eq!(axes(&d), (Some(3), None, Some(3))),
        _ => panic!("expected a displacement"),
    }
    assert!(matches!(BoundaryCondition::<Constant>::sum(vec![]), BoundaryCondition::Free));
    assert!(matches!(BoundaryCondition::<Constant>::default(), BoundaryCondition::Free));
}

#[test]
fn recorded_average_is_what_the_condition_leaves_free() {
    assert_eq!(BoundaryCondition::<Constant>::Free.average_kind(), BoundaryAverageKind::ForceAndDisplacement);
    assert_eq!(
        BoundaryCondition::Force(Constant(0), Constant(0), Constant(0)).average_kind(),
        BoundaryAverageKind::Displacement
    );
    assert_eq!(
        BoundaryCondition::Displacement(Displacement::X(Constant(0))).average_kind(),
        BoundaryAverageKind::Force
    );
}

#[test]
fn run_finishes_after_its_steps() {
    let (mut s, reset_nodes) = RunState::unconfigured().configure(1_000, 250);
    assert!(!reset_nodes);
    assert_eq!(s.phase, Phase::InProgress);
    assert_eq!(s.total_iterations(), 4);
    for k in 1..=4u128 {
        s.advance(10, None);
        assert_eq!(s.iterations(), k);
    }
    assert_eq!(s.phase, Phase::Done);
    assert_eq!(s.runtime_ns, Some(40));
}

#[test]
fn unconfigured_run_has_taken_no_step() {
    let s = RunState::unconfigured();
    assert_eq!(s.phase, Phase::Unconfigured);
    assert_eq!(s.iterations(), 0);
    assert_eq!(s.total_iterations(), 0);
}

#[test]
fn reconfiguring_a_started_run_resets_the_nodes() {
    let (mut s, _) = RunState::unconfigured().configure(100, 10);
    let (_, reset) = s.configure(100, 10);
    assert!(!reset);
    s.advance(1, None);
    let (fresh, reset) = s.configure(200, 10);
    assert!(reset);
    assert_eq!(fresh.iterations, 0);
    assert_eq!(fresh.steps, 20);
}

#[test]
fn shorter_duration_than_elapsed_is_refused() {
    let (mut s, _) = RunState::unconfigured().configure(100, 10);
    s.advance(1, None);
    s.advance(1, None);
    let before = s;
    let r = s.set_duration(10, 10, 20);
    assert_eq!(r, Err(String::from("Cannot reduce duration to a value which is less than duration elapsed")));
    assert_eq!(s, before);
    assert_eq!(s.set_duration(50, 10, 20), Ok(()));
    assert_eq!(s.steps, 5);
    assert_eq!(s.phase, Phase::InProgress);
}

#[test]
fn reset_starts_over() {
    let (mut s, _) = RunState::unconfigured().configure(20, 10);
    s.advance(5, None);
    s.advance(5, None);
    assert_eq!(s.phase, Phase::Done);
    s.reset();
    assert_eq!(s.phase, Phase::InProgress);
    assert_eq!(s.iterations(), 0);
    assert_eq!(s.runtime_ns, Some(0));
    assert_eq!(s.steps, 2);
}

#[test]
fn import_restores_the_saved_run() {
    let s = RunState::import(Some((100, 10)), 4).unwrap();
    assert_eq!((s.phase, s.steps, s.iterations, s.runtime_ns), (Phase::InProgress, 10, 4, None));
    let s = RunState::import(Some((100, 10)), 10).unwrap();
    assert_eq!((s.phase, s.iterations), (Phase::Done, 10));
    let s = RunState::import(Some((100, 10)), 0).unwrap();
    assert_eq!(s.runtime_ns, Some(0));
    assert_eq!(RunState::import(None, 7).unwrap(), RunState::unconfigured());
    assert_eq!(
        RunState::import(Some((100, 10)), 11),
        Err(String::from("Exported data has more iterations than allowed"))
    );
}

#[test]
fn time_step_grows_on_the_tenth_calm_step() {
    let (mut s, _) = RunState::unconfigured().configure(100, 10);
    for _ in 0..9 {
        assert_eq!(s.cfl_step(CourantBand::Below), TimeStepChange::Keep);
    }
    assert_eq!(s.stable_steps, 9);
    assert_eq!(s.cfl_step(CourantBand::Below), TimeStepChange::Grow);
    assert_eq!(s.stable_steps, 0);
    s.cfl_step(CourantBand::Below);
    assert_eq!(s.cfl_step(CourantBand::Above), TimeStepChange::Halve);
    assert_eq!(s.stable_steps, 0);
    s.cfl_step(CourantBand::Below);
    assert_eq!(s.cfl_step(CourantBand::Within), TimeStepChange::Keep);
    assert_eq!(s.stable_steps, 0);
}

#[test]
fn advance_takes_the_new_length_of_the_run() {
    let (mut s, _) = RunState::unconfigured().configure(100, 10);
    s.advance(3, Some(2));
    assert_eq!(s.steps, 2);
    assert_eq!(s.phase, Phase::InProgress);
    s.advance(3, None);
    assert_eq!(s.phase, Phase::Done);
}

#[test]
fn picking_an_element_switches_the_recording() {
    let mut sel = Selection::new();
    assert_eq!(sel.record_stress_data(3, true), vec![EngineCommand::RecordStressData(3)]);
    assert!(sel.record_stress_data(3, true).is_empty());
    assert_eq!(
        sel.record_stress_data(5, true),
        vec![EngineCommand::StopRecordingStressData(3), EngineCommand::RecordStressData(5)]
    );
    assert_eq!(sel.element, Some(5));
    assert_eq!(sel.stop_recording_stress_data(true), Some(EngineCommand::StopRecordingStressData(5)));
    assert_eq!(sel.stop_recording_stress_data(true), None);
    assert_eq!(sel.element, None);
}

#[test]
fn a_stopped_engine_gets_no_commands() {
    let mut sel = Selection::new();
    assert!(sel.record_vertex_position(2, false).is_empty());
    assert_eq!(sel.vertex, Some(2));
    assert_eq!(sel.stop_recording_vertex_position(false), None);
    assert_eq!(sel.vertex, None);
    assert_eq!(sel.select_boundary(4, false), None);
    assert_eq!(sel.boundary, Some(4));
}

#[test]
fn vertex_and_boundary_plots_follow_the_picks() {
    let mut sel = Selection::new();
    assert_eq!(sel.record_vertex_position(1, true), vec![EngineCommand::RecordVertexPosition(1)]);
    assert_eq!(
        sel.record_vertex_position(2, true),
        vec![EngineCommand::StopRecordingVertexPosition(1), EngineCommand::RecordVertexPosition(2)]
    );
    assert_eq!(sel.select_boundary(8, true), Some(EngineCommand::RecordBoundaryData(8)));
    assert_eq!(sel.select_boundary(8, true), None);
    assert_eq!(sel.discard_boundary(), EngineCommand::StopRecordingBoundaryData);
    assert_eq!(sel.boundary, None);
    assert_eq!(sel.vertex, Some(2));
}

#[test]
fn stress_header_lists_the_chosen_components() {
    let mut chosen = [false; 9];
    chosen[0] = true;
    chosen[4] = true;
    chosen[8] = true;
    assert_eq!(
        stress_header(&chosen),
        Some(vec![String::from("EXX"), String::from("EYY"), String::from("EZZ"), String::from("Broken")])
    );
    assert_eq!(stress_header(&[false; 9]), None);
    let all = stress_header(&[true; 9]).unwrap();
    assert_eq!(all.len(), 10);
    assert_eq!(all[1], "EXY");
    assert_eq!(all[5], "EYZ");
}

#[test]
fn selected_values_keep_the_component_order() {
    let values = [1, 2, 3, 4, 5, 6, 7, 8, 9];
    let chosen = [false, true, false, true, false, false, false, false, true];
    assert_eq!(selected_values(&values, &chosen), vec![2, 4, 9]);
    assert!(selected_values(&values, &[false; 9]).is_empty());
}

#[test]
fn components_are_numbered_row_first() {
    assert_eq!(Component::at(0), Component::XX);
    assert_eq!(Component::at(5), Component::YZ);
    assert_eq!(Component::at(7).name(), "ZY");
}

#[test]
fn export_files_are_named_by_time_step() {
    assert_eq!(file_name(ExportFile::Points, 120), "Points_120.csv");
    assert_eq!(file_name(ExportFile::Stress, 0), "Stress_0.csv");
    assert_eq!(file_name(ExportFile::Data, 340282366920938463463374607431768211455), "Data_340282366920938463463374607431768211455.pot");
    assert_eq!(elements_file_name(), "Elements.csv");
    assert_eq!(points_header(), ["X", "Y", "Z"]);
}

#[test]
fn csv_is_the_default_export_format() {
    assert_eq!(ExportFormat::default(), ExportFormat::Csv);
    assert_eq!(ExportFormat::Pot.name(), "Pot");
    assert_eq!(ExportFormat::Csv.name(), "Csv");
}

#[test]
fn only_the_outermost_entry_takes_the_mutex() {
    let mut depth = LockDepth::new();
    let outer = lock(&mut depth);
    let inner = lock(&mut depth);
    assert!(outer.holds_global());
    assert!(!inner.holds_global());
    assert_eq!(depth.depth(), 2);
    assert!(!release(&mut depth, inner));
    assert!(release(&mut depth, outer));
    assert_eq!(depth.depth(), 0);
}
