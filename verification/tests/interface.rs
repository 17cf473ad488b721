use dpm_sim::display_names::{pattern_label, Colormap, SeedingPattern};
use dpm_sim::hardware::{
    first_step, intel_gpu, mentions_intel, mentions_word, next_step, nvidia_gpu, pick_gpu, target_os, tool_name,
    DetectStep, GpuAccelerationMode, Probe, ProbeResult, TargetOs,
};
use dpm_sim::inputs::{
    check_point_count, parse_export_period, parse_point_count, BulkMaterialPropsInput, SimulationConfigInput,
    MAX_POINT_COUNT,
};
use dpm_sim::material::ElasticityCondition;
use dpm_sim::mesh_worker::{
    no_polygons_message, set_refresh_token, WorkerAction, WorkerError, WorkerEvent, WorkerStage,
};
use dpm_sim::project_list::{
    closed_row_action, first_active_row, open_row_action, untitled_row_action, LabelButton, LabelResponse,
    RowAction,
};
use dpm_sim::text::{decimal_string, parse_unsigned, same_text};

#[test]
fn point_count_input_is_checked() {
    assert_eq!(parse_point_count("250"), Ok(250));
    assert_eq!(parse_point_count("10000"), Ok(10000));
    assert_eq!(parse_point_count(" 10"), Err(String::from("Invalid point count input  10")));
    assert_eq!(parse_point_count("+7"), Ok(7));
    assert_eq!(parse_point_count("0"), Err(String::from("Number of points must be greater than 0")));
    assert_eq!(parse_point_count("10001"), Err(String::from("Point count is too high (max 10,000)")));
    assert_eq!(parse_point_count("ten"), Err(String::from("Invalid point count input ten")));
    assert_eq!(parse_point_count("-3"), Err(String::from("Invalid point count input -3")));
    assert_eq!(parse_point_count(""), Err(String::from("Invalid point count input ")));
    assert_eq!(parse_point_count("4294967296"), Err(String::from("Invalid point count input 4294967296")));
}

#[test]
fn generator_checks_the_point_count() {
    assert_eq!(check_point_count(1), Ok(()));
    assert_eq!(check_point_count(MAX_POINT_COUNT), Ok(()));
    assert_eq!(check_point_count(0), Err(String::from("Number of points must be greater than 0")));
    assert_eq!(check_point_count(10001), Err(String::from("Number of points is too high (max 10,000)")));
}

#[test]
fn export_period_is_a_whole_number() {
    assert_eq!(parse_export_period("100"), Ok(100));
    assert_eq!(parse_export_period("0"), Ok(0));
    assert_eq!(parse_export_period("1.5"), Err(String::from("Invalid export period 1.5")));
}

#[test]
fn unsigned_parsing_respects_the_limit() {
    assert_eq!(parse_unsigned("255", 255), Some(255));
    assert_eq!(parse_unsigned("256", 255), None);
    assert_eq!(parse_unsigned("007", 255), Some(7));
    assert_eq!(parse_unsigned("+", 255), None);
    assert_eq!(parse_unsigned("1 2", 255), None);
}

#[test]
fn decimal_text_matches_formatting() {
    for n in [0u128, 7, 10, 99, 1234567890, u128::MAX] {
        assert_eq!(decimal_string(n), n.to_string());
    }
    assert!(same_text("abc", "abc"));
    assert!(!same_text("abc", "abd"));
    assert!(!same_text("ab", "abc"));
}

#[test]
fn input_help_texts() {
    assert_eq!(SimulationConfigInput::Duration.info_text(), "Total duration of the simulation.");
    assert!(SimulationConfigInput::RefreshPeriod.info_text().starts_with("Rate at which new frames"));
    assert_eq!(
        SimulationConfigInput::BodyForceZ.info_text(),
        "Body force component in the Z direction (e.g. acceleration like gravity)."
    );
    assert_eq!(SimulationConfigInput::RefreshPeriod.label(), "Refresh Period");
    assert_eq!(BulkMaterialPropsInput::Damping.info_text(), "Damping constant of the material");
    assert_eq!(
        BulkMaterialPropsInput::FailureCompressionalStress.info_text(),
        "Compressional stress at which cracks starts to form.\nOptional parameter, leave blank if not necessary."
    );
    assert_eq!(BulkMaterialPropsInput::FailureStrainEnergy.label(), "Failure Strain Energy");
}

#[test]
fn display_names() {
    assert_eq!(Colormap::default(), Colormap::CoolWarm);
    assert_eq!(Colormap::CoolWarm.label(), "Cool-Warm");
    assert_eq!(Colormap::Grayscale.label(), "Grayscale");
    assert_eq!(pattern_label(SeedingPattern::Hexagonal), "Hexagonal");
    assert_eq!(pattern_label(SeedingPattern::Random), "Random");
    assert_eq!(ElasticityCondition::default(), ElasticityCondition::ThreeDimensional);
    assert_eq!(ElasticityCondition::ThreeDimensional.name(), "Three Dimensional");
}

fn drive(os: TargetOs, aarch64: bool, nvidia: Option<(usize, u64)>, rocm: bool, intel: bool) -> (GpuAccelerationMode, usize) {
    let mut step = first_step(os, aarch64);
    let mut probes = 0;
    loop {
        match step {
            DetectStep::Done(mode) => return (mode, probes),
            DetectStep::Probe(p) => {
                probes += 1;
                let answer = match p {
                    Probe::Nvidia => ProbeResult::Nvidia(nvidia),
                    Probe::Rocm => ProbeResult::Rocm(rocm),
                    Probe::IntelGpu => ProbeResult::IntelGpu(intel),
                };
                step = next_step(os, answer);
            }
        }
    }
}

#[test]
fn detection_follows_the_platform() {
    assert_eq!(drive(TargetOs::MacOs, true, None, false, false), (GpuAccelerationMode::NeuralEngineCoreMl, 0));
    assert_eq!(drive(TargetOs::MacOs, false, Some((1, 5)), true, true), (GpuAccelerationMode::IntelMacMps, 0));
    assert_eq!(
        drive(TargetOs::Linux, false, Some((1, 8000)), true, true),
        (GpuAccelerationMode::Cuda { gpu_index: 1, free_vram_mb: 8000 }, 1)
    );
    assert_eq!(drive(TargetOs::Linux, false, None, true, true), (GpuAccelerationMode::Rocm, 2));
    assert_eq!(drive(TargetOs::Linux, false, None, false, true), (GpuAccelerationMode::IpexOpenCl, 3));
    assert_eq!(drive(TargetOs::Linux, false, None, false, false), (GpuAccelerationMode::CpuOnly, 3));
    assert_eq!(drive(TargetOs::Windows, false, None, true, true), (GpuAccelerationMode::CpuOnly, 1));
    assert_eq!(drive(TargetOs::Other, false, Some((0, 1)), true, true), (GpuAccelerationMode::CpuOnly, 0));
    assert_eq!(GpuAccelerationMode::default(), GpuAccelerationMode::CpuOnly);
}

#[test]
fn operating_system_names() {
    assert_eq!(target_os("macos"), TargetOs::MacOs);
    assert_eq!(target_os("linux"), TargetOs::Linux);
    assert_eq!(target_os("windows"), TargetOs::Windows);
    assert_eq!(target_os("freebsd"), TargetOs::Other);
    assert_eq!(tool_name("nvidia-smi", TargetOs::Windows), "nvidia-smi.exe");
    assert_eq!(tool_name("rocm-smi", TargetOs::Linux), "rocm-smi");
}

#[test]
fn gpu_with_most_free_memory_is_picked() {
    assert_eq!(pick_gpu("1024\n8192\n4096\n"), (1, 8192));
    assert_eq!(pick_gpu(" 300 \r\n300\n"), (0, 300));
    assert_eq!(pick_gpu("n/a\n"), (0, 0));
    assert_eq!(pick_gpu(""), (0, 0));
    assert_eq!(pick_gpu("0\n12"), (1, 12));
    assert_eq!(nvidia_gpu(false, Some("5")), None);
    assert_eq!(nvidia_gpu(true, None), Some((0, 0)));
    assert_eq!(nvidia_gpu(true, Some("5\n6")), Some((1, 6)));
}

#[test]
fn intel_devices_are_recognised_in_any_case() {
    assert!(mentions_intel("Platform Vendor: Intel(R) Corporation"));
    assert!(mentions_intel("INTEL"));
    assert!(!mentions_intel("NVIDIA CUDA"));
    assert!(!mentions_intel("inte"));
    assert!(mentions_word("anything", ""));
    assert!(intel_gpu(true, Some("intel")));
    assert!(!intel_gpu(false, Some("intel")));
    assert!(!intel_gpu(true, None));
}

#[test]
fn modes_are_described_as_in_the_status_bar() {
    assert_eq!(GpuAccelerationMode::NeuralEngineCoreMl.describe(), "Apple Silicon (CoreML + MPS)");
    assert_eq!(
        GpuAccelerationMode::Cuda { gpu_index: 2, free_vram_mb: 11264 }.describe(),
        "NVIDIA CUDA (GPU 2, 11264 MB Free)"
    );
    assert_eq!(GpuAccelerationMode::CpuOnly.describe(), "CPU (Fallback)");
    assert_eq!(GpuAccelerationMode::IpexOpenCl.describe(), "Intel iGPU (IPEX/OpenCL)");
}

fn response(selected: bool, save: bool, close: bool, delete: bool) -> LabelResponse<u32, 3> {
    LabelResponse {
        project_handle: 1,
        selected,
        buttons: [(LabelButton::Save, save), (LabelButton::Close, close), (LabelButton::Delete, delete)],
    }
}

#[test]
fn project_rows_report_their_buttons() {
    let r = response(false, false, true, false);
    assert!(r.has_some_value());
    assert!(r.is_button_clicked(LabelButton::Close));
    assert!(!r.is_button_clicked(LabelButton::Save));
    assert!(!response(false, false, false, false).has_some_value());
    assert!(response(true, false, false, false).has_some_value());
}

#[test]
fn project_rows_decide_the_panel_action() {
    assert_eq!(untitled_row_action(&response(true, true, true, false)), (true, RowAction::AskClose));
    assert_eq!(untitled_row_action(&response(false, true, false, false)), (false, RowAction::Save));
    assert_eq!(open_row_action(&response(false, true, true, true)), (false, RowAction::AskDelete));
    assert_eq!(open_row_action(&response(true, false, false, false)), (true, RowAction::Nothing));
    assert_eq!(closed_row_action(&response(true, false, false, true)), RowAction::AskDelete);
    assert_eq!(closed_row_action(&response(true, false, false, false)), RowAction::Open);
    assert_eq!(closed_row_action(&response(false, false, false, false)), RowAction::Nothing);
}

#[test]
fn buttons_show_their_symbols() {
    assert_eq!(LabelButton::Save.symbol(), "\u{1f5cb}");
    assert_eq!(LabelButton::Close.symbol(), "\u{1f5d9}");
    assert_eq!(LabelButton::Delete.symbol(), "\u{1f5d1}");
    assert_eq!(LabelButton::Delete.name(), "Delete");
}

fn run_worker(events: &[WorkerEvent]) -> (WorkerStage, Vec<WorkerAction>) {
    let mut stage = WorkerStage::AwaitingCommand;
    let mut actions = Vec::new();
    for &e in events {
        assert!(stage.accepts(e));
        let (next, action) = stage.step(e);
        stage = next;
        actions.push(action);
    }
    (stage, actions)
}

#[test]
fn worker_meshes_a_solid_when_it_has_vertices() {
    let (stage, actions) = run_worker(&[
        WorkerEvent::InputReceived,
        WorkerEvent::PolyhedronSetBuilt { vertex_count: 8 },
        WorkerEvent::MeshGenerated,
        WorkerEvent::Delivered,
    ]);
    assert_eq!(stage, WorkerStage::AwaitingCommand);
    assert_eq!(
        actions,
        vec![
            WorkerAction::BuildPolyhedronSet,
            WorkerAction::GenerateFromPolyhedronSet,
            WorkerAction::SendMesh,
            WorkerAction::RefreshAndAwait,
        ]
    );
}

#[test]
fn worker_falls_back_to_the_polygon() {
    let (_, actions) = run_worker(&[
        WorkerEvent::InputReceived,
        WorkerEvent::PolyhedronSetBuilt { vertex_count: 0 },
        WorkerEvent::PolygonSetBuilt { polygon_count: 1, input_count: 1, first_is_join: true },
        WorkerEvent::MeshFailed,
        WorkerEvent::Delivered,
    ]);
    assert_eq!(actions[2], WorkerAction::GenerateFromPolygon { with_primitive: true });
    assert_eq!(actions[3], WorkerAction::SendError(WorkerError::Meshing));
    let (_, actions) = run_worker(&[
        WorkerEvent::InputReceived,
        WorkerEvent::PolyhedronSetBuilt { vertex_count: 0 },
        WorkerEvent::PolygonSetBuilt { polygon_count: 2, input_count: 2, first_is_join: true },
    ]);
    assert_eq!(actions[2], WorkerAction::GenerateFromPolygon { with_primitive: false });
}

#[test]
fn worker_reports_an_empty_drawing() {
    let (stage, actions) = run_worker(&[
        WorkerEvent::TokenReceived,
        WorkerEvent::InputReceived,
        WorkerEvent::PolyhedronSetBuilt { vertex_count: 0 },
        WorkerEvent::PolygonSetBuilt { polygon_count: 0, input_count: 0, first_is_join: false },
        WorkerEvent::NotDelivered,
    ]);
    assert_eq!(actions[0], WorkerAction::StoreToken);
    assert_eq!(actions[3], WorkerAction::SendError(WorkerError::NoPolygons));
    assert_eq!(actions[4], WorkerAction::Exit);
    assert_eq!(stage, WorkerStage::Stopped);
    assert!(!stage.accepts(WorkerEvent::InputReceived));
    assert_eq!(
        no_polygons_message(),
        "No polygons found in the current configuration. Please ensure you have drawn at least one shape."
    );
}

#[test]
fn worker_stops_when_its_channel_closes() {
    let (stage, actions) = run_worker(&[WorkerEvent::ChannelClosed]);
    assert_eq!(stage, WorkerStage::Stopped);
    assert_eq!(actions, vec![WorkerAction::Exit]);
    let (_, actions) = run_worker(&[WorkerEvent::InputReceived, WorkerEvent::PolyhedronSetFailed]);
    assert_eq!(actions[1], WorkerAction::SendError(WorkerError::InvalidPolyhedronSet));
    assert!(!WorkerStage::BuildingPolygonSet.accepts(WorkerEvent::Delivered));
}

#[test]
fn refresh_token_is_sent_once() {
    let mut token_set = false;
    assert!(set_refresh_token(&mut token_set));
    assert!(!set_refresh_token(&mut token_set));
    assert!(token_set);
}

#[test]
fn the_first_row_asking_for_something_wins() {
    let mut second = response(false, true, false, false);
    second.project_handle = 2;
    let mut third = response(true, false, false, false);
    third.project_handle = 3;
    let rows = vec![response(false, false, false, false), second, third];
    let found = first_active_row(rows).unwrap();
    assert_eq!(found.project_handle, 2);
    assert!(found.is_button_clicked(LabelButton::Save));
    assert!(first_active_row(vec![response(false, false, false, false)]).is_none());
    assert!(first_active_row(Vec::<LabelResponse<u32, 3>>::new()).is_none());
}
