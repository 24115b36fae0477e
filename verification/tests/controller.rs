use cubemap_cycler::controller::Controller;
use cubemap_cycler::formats::{Compression, FormatSet};
use cubemap_cycler::table::{Candidate, CandidateTable};
use cubemap_cycler::texture::{TextureMetadata, ViewDimension};
use cubemap_cycler::timer::{Phase, Rearm};
use cubemap_cycler::tracker::LoadStatus;

const DELAY: u64 = 3000;

fn scenario_table() -> CandidateTable {
    CandidateTable::new(vec![
        Candidate::new("A", FormatSet::none()),
        Candidate::new("B", FormatSet::single(Compression::AstcLdr)),
        Candidate::new("C", FormatSet::single(Compression::Bc)),
    ])
    .expect("three candidates")
}

#[test]
fn a_new_controller_asks_for_the_first_candidate() {
    let controller = Controller::new(scenario_table(), DELAY, Rearm::EveryTick, 10u32);
    assert_eq!(controller.index(), 0);
    assert_eq!(controller.handle(), 10);
    assert!(!controller.is_loaded());
    assert_eq!(controller.current().path, "A");
    assert_eq!(controller.table().len(), 3);
    assert_eq!(controller.timer_phase(), Phase::Idle);
}

#[test]
fn end_to_end_swap_to_the_supported_encoding() {
    let supported = FormatSet::single(Compression::Bc);
    let handle_a = 10u32;
    let handle_c = 30u32;
    let mut controller = Controller::new(scenario_table(), DELAY, Rearm::EveryTick, handle_a);
    let mut skybox = vec![handle_a];

    // First tick arms the timer; nothing is scanned.
    let report = controller.cycle(1000, supported);
    assert!(!report.attempted);
    assert!(report.skipped.is_empty());
    assert_eq!(report.request, None);

    // Before the deadline nothing happens either.
    let report = controller.cycle(3999, supported);
    assert!(!report.attempted);
    assert_eq!(report.request, None);

    // The scheduler fires: B is skipped, C is chosen.
    let report = controller.cycle(4000, supported);
    assert!(report.attempted);
    assert_eq!(report.skipped, vec![1]);
    assert_eq!(report.request, Some(2));
    assert_eq!(controller.index(), 0);
    assert_eq!(controller.handle(), handle_a);

    // The caller loads C and reports the handle.
    assert!(controller.begin_load(2, handle_c));
    assert_eq!(controller.index(), 2);
    assert_eq!(controller.handle(), handle_c);
    assert!(!controller.is_loaded());
    assert_eq!(controller.current().path, "C");

    // While C is pending, image and skybox stay as they are.
    let mut image = TextureMetadata::flat(1024, 6144);
    assert!(!controller.completes_with(LoadStatus::Pending));
    assert!(!controller.finish(LoadStatus::Pending, &mut image, &mut skybox));
    assert_eq!(image, TextureMetadata::flat(1024, 6144));
    assert_eq!(skybox, vec![handle_a]);
    assert!(!controller.is_loaded());

    // C is reported loaded: reinterpret, bind, mark loaded.
    assert!(controller.completes_with(LoadStatus::Loaded));
    assert!(controller.finish(LoadStatus::Loaded, &mut image, &mut skybox));
    assert_eq!(image.array_layer_count, 6);
    assert_eq!(image.view_dimension, ViewDimension::CubeArray);
    assert_eq!(image.width, 1024);
    assert_eq!(image.height, 6144);
    assert_eq!(skybox, vec![handle_c]);
    assert!(controller.is_loaded());
    assert_eq!(controller.index(), 2);
    assert_eq!(controller.handle(), handle_c);
}

#[test]
fn no_eligible_candidate_is_a_no_op() {
    let handle_a = 10u32;
    let mut controller = Controller::new(scenario_table(), DELAY, Rearm::EveryTick, handle_a);
    let nothing = FormatSet::none();
    assert!(!controller.cycle(0, nothing).attempted);
    let report = controller.cycle(DELAY, nothing);
    assert!(report.attempted);
    // B and C are passed over; the scan ends on A, the current and the only
    // eligible candidate, so nothing is asked for.
    assert_eq!(report.skipped, vec![1, 2]);
    assert_eq!(report.request, None);
    assert_eq!(controller.index(), 0);
    assert_eq!(controller.handle(), handle_a);
    assert!(!controller.is_loaded());
}

#[test]
fn nothing_supported_at_all_passes_over_the_whole_table() {
    let table = CandidateTable::new(vec![
        Candidate::new("astc", FormatSet::single(Compression::AstcLdr)),
        Candidate::new("bc", FormatSet::single(Compression::Bc)),
        Candidate::new("etc2", FormatSet::single(Compression::Etc2)),
    ])
    .expect("three candidates");
    let mut controller = Controller::new(table, DELAY, Rearm::EveryTick, 1u32);
    assert!(!controller.cycle(0, FormatSet::none()).attempted);
    let report = controller.cycle(DELAY, FormatSet::none());
    assert!(report.attempted);
    assert_eq!(report.skipped, vec![1, 2, 0]);
    assert_eq!(report.request, None);
    assert_eq!(controller.index(), 0);
}

#[test]
fn a_loaded_texture_is_finished_only_once() {
    let mut controller = Controller::new(scenario_table(), DELAY, Rearm::EveryTick, 10u32);
    let mut image = TextureMetadata::flat(512, 3072);
    let mut slots = vec![0u32, 0];
    assert!(controller.finish(LoadStatus::Loaded, &mut image, &mut slots));
    assert_eq!(image.array_layer_count, 6);
    assert_eq!(slots, vec![10, 10]);

    // Later polls change nothing, even on another image and stale slots.
    let mut other = TextureMetadata::flat(512, 3072);
    let mut stale = vec![0u32, 0];
    assert!(!controller.completes_with(LoadStatus::Loaded));
    assert!(!controller.finish(LoadStatus::Loaded, &mut other, &mut stale));
    assert_eq!(other, TextureMetadata::flat(512, 3072));
    assert_eq!(stale, vec![0, 0]);
    assert!(controller.is_loaded());
}

#[test]
fn a_failed_load_stays_requested() {
    let mut controller = Controller::new(scenario_table(), DELAY, Rearm::EveryTick, 10u32);
    let mut image = TextureMetadata::flat(512, 3072);
    let mut slots = vec![0u32];
    for _ in 0..3 {
        assert!(!controller.completes_with(LoadStatus::Failed));
        assert!(!controller.finish(LoadStatus::Failed, &mut image, &mut slots));
    }
    assert!(!controller.is_loaded());
    assert_eq!(image, TextureMetadata::flat(512, 3072));
    assert_eq!(slots, vec![0]);
}

#[test]
fn a_container_that_reports_its_layers_is_bound_without_rewrite() {
    let mut controller = Controller::new(scenario_table(), DELAY, Rearm::EveryTick, 10u32);
    let native = TextureMetadata {
        width: 1024,
        height: 1024,
        array_layer_count: 6,
        view_dimension: ViewDimension::CubeArray,
    };
    let mut image = native;
    let mut slots = vec![0u32];
    assert!(controller.finish(LoadStatus::Loaded, &mut image, &mut slots));
    assert_eq!(image, native);
    assert_eq!(slots, vec![10]);
}

#[test]
fn a_position_outside_the_table_is_refused() {
    let mut controller = Controller::new(scenario_table(), DELAY, Rearm::EveryTick, 10u32);
    assert!(!controller.begin_load(3, 99));
    assert!(!controller.begin_load(usize::MAX, 99));
    assert_eq!(controller.index(), 0);
    assert_eq!(controller.handle(), 10);
}

#[test]
fn a_new_request_abandons_the_one_before() {
    let mut controller = Controller::new(scenario_table(), DELAY, Rearm::EveryTick, 10u32);
    assert!(controller.begin_load(1, 20));
    assert!(controller.begin_load(2, 30));
    assert_eq!(controller.index(), 2);
    assert_eq!(controller.handle(), 30);
    let mut image = TextureMetadata::flat(8, 48);
    let mut slots = vec![10u32];
    assert!(controller.finish(LoadStatus::Loaded, &mut image, &mut slots));
    assert_eq!(slots, vec![30]);
}

#[test]
fn a_new_request_resets_the_loaded_flag() {
    let mut controller = Controller::new(scenario_table(), DELAY, Rearm::EveryTick, 10u32);
    let mut image = TextureMetadata::flat(8, 48);
    let mut slots = vec![0u32];
    assert!(controller.finish(LoadStatus::Loaded, &mut image, &mut slots));
    assert!(controller.is_loaded());
    assert!(controller.begin_load(2, 30));
    assert!(!controller.is_loaded());
    let mut next = TextureMetadata::flat(8, 24);
    assert!(controller.finish(LoadStatus::Loaded, &mut next, &mut slots));
    assert_eq!(next.array_layer_count, 3);
    assert_eq!(slots, vec![30]);
}

#[test]
fn every_tick_policy_scans_again_right_after_a_swap() {
    let supported = FormatSet::from_bits_truncate(7);
    let mut controller = Controller::new(scenario_table(), DELAY, Rearm::EveryTick, 10u32);
    assert!(!controller.cycle(0, supported).attempted);
    let report = controller.cycle(DELAY, supported);
    assert_eq!(report.request, Some(1));
    assert!(controller.begin_load(1, 20));
    let report = controller.cycle(DELAY + 1, supported);
    assert!(report.attempted);
    assert_eq!(report.request, Some(2));
    assert_eq!(controller.timer_phase(), Phase::JustFired);
}

#[test]
fn after_delay_policy_waits_between_swaps() {
    let supported = FormatSet::from_bits_truncate(7);
    let mut controller = Controller::new(scenario_table(), DELAY, Rearm::AfterDelay, 10u32);
    assert!(!controller.cycle(0, supported).attempted);
    let report = controller.cycle(DELAY, supported);
    assert_eq!(report.request, Some(1));
    assert!(controller.begin_load(1, 20));
    let report = controller.cycle(DELAY + 1, supported);
    assert!(!report.attempted);
    assert_eq!(report.request, None);
    let report = controller.cycle(2 * DELAY, supported);
    assert!(report.attempted);
    assert_eq!(report.request, Some(2));
}

#[test]
fn capabilities_are_read_anew_on_every_attempt() {
    let mut controller = Controller::new(scenario_table(), DELAY, Rearm::EveryTick, 10u32);
    assert!(!controller.cycle(0, FormatSet::none()).attempted);
    assert_eq!(controller.cycle(DELAY, FormatSet::none()).request, None);
    let report = controller.cycle(DELAY + 1, FormatSet::single(Compression::AstcLdr));
    assert_eq!(report.request, Some(1));
    assert!(report.skipped.is_empty());
}

#[test]
fn a_device_with_bc_alternates_between_the_plain_and_the_bc_encoding() {
    let supported = FormatSet::single(Compression::Bc);
    let mut controller = Controller::new(CandidateTable::standard(), DELAY, Rearm::AfterDelay, 0u32);
    assert!(!controller.cycle(0, supported).attempted);

    let report = controller.cycle(DELAY, supported);
    assert_eq!(report.skipped, vec![1]);
    assert_eq!(report.request, Some(2));
    assert!(controller.begin_load(2, 2));
    assert_eq!(controller.current().path, "textures/Ryfjallet_cubemap_bc7.ktx2");

    let report = controller.cycle(2 * DELAY, supported);
    assert_eq!(report.skipped, vec![3]);
    assert_eq!(report.request, Some(0));
    assert!(controller.begin_load(0, 0));
    assert_eq!(controller.current().path, "textures/Ryfjallet_cubemap.png");

    let report = controller.cycle(3 * DELAY, supported);
    assert_eq!(report.skipped, vec![1]);
    assert_eq!(report.request, Some(2));
}
