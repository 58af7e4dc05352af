//! Cards, connectors, planes, properties and frames.

use drm::buffer::DrmFourcc;
use tiny_dfr::cards::{
    card_order, is_ebusy_error, CardAction, CardSearch, EBUSY, MAX_OPEN_RETRIES, RETRY_DELAY_MS,
};
use tiny_dfr::display::{
    best_mode, blend_setting, choose_connector, choose_crtc, choose_plane, find_enum_value,
    find_prop_id, looks_like_touchbar, max_setting, optional_property_names, optional_setting, pick_primary_format,
    plan_mode_settings, ConnectorInfo, DrmObject, ModeSize, PixelFormat, PlaneInfo, PropertyKind,
    PropertyValue, ARGB8888, XRGB8888,
};
use tiny_dfr::frame::{copy_frame, draw_bitmap};
use tiny_dfr::search::Search;

fn strings(list: &[&str]) -> Vec<String> {
    list.iter().map(|s| s.to_string()).collect()
}

#[test]
fn format_codes_are_those_of_the_kernel() {
    assert_eq!(ARGB8888, DrmFourcc::Argb8888 as u32);
    assert_eq!(XRGB8888, DrmFourcc::Xrgb8888 as u32);
    assert_eq!(EBUSY, libc::EBUSY);
}

#[test]
fn alpha_is_preferred() {
    assert_eq!(pick_primary_format(&vec![]), None);
    assert_eq!(pick_primary_format(&vec![1, 2]), None);
    assert_eq!(pick_primary_format(&vec![1, XRGB8888]), Some(PixelFormat::Xrgb8888));
    assert_eq!(pick_primary_format(&vec![XRGB8888, ARGB8888]), Some(PixelFormat::Argb8888));
}

#[test]
fn touch_bars_are_long_and_narrow() {
    assert!(looks_like_touchbar(2170, 60));
    assert!(looks_like_touchbar(60, 2170));
    assert!(looks_like_touchbar(80, 10));
    assert!(!looks_like_touchbar(79, 10));
    assert!(!looks_like_touchbar(1920, 1080));
    assert!(!looks_like_touchbar(0, 60));
    assert!(!looks_like_touchbar(60, 0));
    assert!(looks_like_touchbar(65535, 1));
    assert!(!looks_like_touchbar(65535, 65535));
}

fn size(width: u16, height: u16) -> ModeSize {
    ModeSize { width, height }
}

#[test]
fn the_last_of_the_best_modes_is_used() {
    assert_eq!(best_mode(&vec![]), None);
    assert_eq!(best_mode(&vec![size(1920, 1080)]), None);
    assert_eq!(best_mode(&vec![size(60, 2170), size(2170, 60), size(1920, 1080)]), Some(1));
    assert_eq!(best_mode(&vec![size(2170, 60), size(2170, 60)]), Some(1));
    // 60000 / 2170 and 60000 / 2172 are both 27.
    assert_eq!(best_mode(&vec![size(60, 2170), size(60, 2172), size(1, 9)]), Some(2));
}

#[test]
fn only_connected_touch_bars_are_used() {
    let screen = ConnectorInfo { connected: true, modes: vec![size(1920, 1080)] };
    let off = ConnectorInfo { connected: false, modes: vec![size(2170, 60)] };
    let bar = ConnectorInfo { connected: true, modes: vec![size(1920, 1080), size(60, 2170)] };
    assert_eq!(choose_connector(&vec![]), None);
    assert_eq!(choose_connector(&vec![screen, off]), None);
    let screen = ConnectorInfo { connected: true, modes: vec![size(1920, 1080)] };
    let off = ConnectorInfo { connected: false, modes: vec![size(2170, 60)] };
    assert_eq!(choose_connector(&vec![screen, off, bar]), Some((2, 1)));
}

#[test]
fn equal_ratios_are_decided_by_width() {
    let wide = ConnectorInfo { connected: true, modes: vec![size(4340, 120)] };
    let narrow = ConnectorInfo { connected: true, modes: vec![size(2170, 60)] };
    assert_eq!(choose_connector(&vec![wide, narrow]), Some((0, 0)));
    let one = ConnectorInfo { connected: true, modes: vec![size(2170, 60)] };
    let two = ConnectorInfo { connected: true, modes: vec![size(2170, 60)] };
    assert_eq!(choose_connector(&vec![one, two]), Some((1, 0)));
}

#[test]
fn the_first_fitting_controller_is_used() {
    assert_eq!(choose_crtc(&vec![5, 4], &vec![1, 2]), Some(5));
    assert_eq!(choose_crtc(&vec![], &vec![1, 2]), Some(1));
    assert_eq!(choose_crtc(&vec![], &vec![]), None);
}

#[test]
fn the_first_usable_plane_is_used() {
    let planes = vec![
        PlaneInfo { crtcs: vec![1], formats: vec![ARGB8888] },
        PlaneInfo { crtcs: vec![1, 2], formats: vec![7] },
        PlaneInfo { crtcs: vec![2], formats: vec![7, XRGB8888] },
        PlaneInfo { crtcs: vec![2], formats: vec![ARGB8888] },
    ];
    assert_eq!(choose_plane(&planes, 2), Some((2, PixelFormat::Xrgb8888)));
    assert_eq!(choose_plane(&planes, 1), Some((0, PixelFormat::Argb8888)));
    assert_eq!(choose_plane(&planes, 3), None);
}

#[test]
fn properties_are_found_whatever_the_case() {
    let names = strings(&["type", "crtc_id", "CRTC_ID"]);
    assert_eq!(find_prop_id(&names, false, "CRTC_ID"), Search::Found(1));
    assert_eq!(find_prop_id(&names, true, "CRTC_ID"), Search::Found(1));
    assert_eq!(find_prop_id(&names, true, "FB_ID"), Search::ReadFailed);
    assert_eq!(find_prop_id(&names, false, "FB_ID"), Search::Missing);
}

#[test]
fn values_are_found_in_the_order_of_preference() {
    let values = vec![
        None,
        Some("none".to_string()),
        Some("coverage".to_string()),
        Some("COVERAGE".to_string()),
    ];
    assert_eq!(find_enum_value(&values, &strings(&["Other", "Coverage", "None"])), Some(2));
    assert_eq!(find_enum_value(&values, &strings(&["None"])), Some(1));
    assert_eq!(find_enum_value(&values, &strings(&["Pre-multiplied"])), None);
    assert_eq!(find_enum_value(&vec![], &strings(&["None"])), None);
}

#[test]
fn the_whole_display_is_covered() {
    let plan = plan_mode_settings(60, 2170);
    let names: Vec<&str> = plan.iter().map(|s| s.name.as_str()).collect();
    assert_eq!(
        names,
        vec![
            "CRTC_ID", "MODE_ID", "ACTIVE", "FB_ID", "CRTC_ID", "SRC_X", "SRC_Y", "SRC_W", "SRC_H",
            "CRTC_X", "CRTC_Y", "CRTC_W", "CRTC_H"
        ]
    );
    assert_eq!(plan[0].object, DrmObject::Connector);
    assert_eq!(plan[1].object, DrmObject::Crtc);
    assert_eq!(plan[2].value, PropertyValue::Boolean(true));
    assert_eq!(plan[4].object, DrmObject::Plane);
    assert_eq!(plan[7].value, PropertyValue::Unsigned(60 << 16));
    assert_eq!(plan[8].value, PropertyValue::Unsigned(2170 << 16));
    assert_eq!(plan[9].value, PropertyValue::Signed(0));
    assert_eq!(plan[12].value, PropertyValue::Unsigned(2170));
}

#[test]
fn optional_properties_are_set_where_they_fit() {
    assert_eq!(optional_property_names(), vec!["alpha", "zpos", "pixel blend mode"]);
    assert_eq!(
        max_setting(&PropertyKind::UnsignedRange(65535)),
        Some(PropertyValue::Unsigned(65535))
    );
    assert_eq!(max_setting(&PropertyKind::Other), None);
    assert_eq!(max_setting(&PropertyKind::Enum(vec![])), None);
    let blend = PropertyKind::Enum(vec![Some("None".to_string()), Some("Coverage".to_string())]);
    assert_eq!(blend_setting(&blend), Some(PropertyValue::Enum(1)));
    let first = PropertyKind::Enum(vec![
        Some("Coverage".to_string()),
        Some("pre-multiplied".to_string()),
    ]);
    assert_eq!(blend_setting(&first), Some(PropertyValue::Enum(1)));
    assert_eq!(blend_setting(&PropertyKind::Enum(vec![None])), None);
    assert_eq!(blend_setting(&PropertyKind::Other), None);
}

#[test]
fn optional_properties_have_their_own_rules() {
    let range = || PropertyKind::UnsignedRange(9);
    let list = || PropertyKind::Enum(vec![Some("None".to_string())]);
    for name in ["alpha", "zpos"] {
        assert_eq!(optional_setting(name, &range()), Some(PropertyValue::Unsigned(9)));
        assert_eq!(optional_setting(name, &list()), None);
    }
    assert_eq!(optional_setting("pixel blend mode", &list()), Some(PropertyValue::Enum(0)));
    assert_eq!(optional_setting("pixel blend mode", &range()), None);
    assert_eq!(optional_setting("rotation", &range()), None);
}

#[test]
fn cards_are_tried_in_the_order_of_their_numbers() {
    let names = strings(&["renderD128", "card10", "card2", "cardX", "card02", "card", "by-path"]);
    let order: Vec<&str> = card_order(&names).iter().map(|i| names[*i].as_str()).collect();
    assert_eq!(order, vec!["card2", "card02", "card10", "cardX", "card"]);
    assert_eq!(card_order(&vec![]), Vec::<usize>::new());
}

#[test]
fn busy_devices_are_recognised() {
    assert!(is_ebusy_error(&vec![None, Some(16)]));
    assert!(!is_ebusy_error(&vec![None, Some(13)]));
    assert!(!is_ebusy_error(&vec![]));
}

#[test]
fn without_cards_there_is_no_search() {
    match CardSearch::new(vec![]) {
        Err(reason) => assert_eq!(reason, "No DRM card nodes found in /dev/dri"),
        Ok(_) => panic!("a search without cards"),
    }
}

fn started() -> CardSearch {
    match CardSearch::new(strings(&["/dev/dri/card0", "/dev/dri/card1"])) {
        Ok(search) => search,
        Err(reason) => panic!("{}", reason),
    }
}

#[test]
fn a_search_without_busy_cards_ends_after_one_attempt() {
    let mut search = started();
    assert_eq!(search.path(), "/dev/dri/card0");
    match search.probe_failed(false, "no planes", "NoPlanes") {
        CardAction::Probe(i) => assert_eq!(i, 1),
        _ => panic!("the second card is to be tried"),
    }
    assert_eq!(search.path(), "/dev/dri/card1");
    match search.probe_failed(false, "gone", "Gone") {
        CardAction::GiveUp(reason) => assert_eq!(
            reason,
            "No touchbar device found after 1 attempt(s), attempted: [\n    \
             /dev/dri/card0: no planes | debug=NoPlanes,\n    \
             /dev/dri/card1: gone | debug=Gone\n]"
        ),
        _ => panic!("the search is to be given up"),
    }
}

#[test]
fn busy_cards_are_tried_fifteen_times() {
    let mut search = started();
    let mut probes = 0;
    let mut waits = 0;
    loop {
        probes += 1;
        match search.probe_failed(true, "busy", "Busy") {
            CardAction::Probe(_) => {}
            CardAction::Wait => waits += 1,
            CardAction::GiveUp(reason) => {
                assert!(reason.starts_with("No touchbar device found after 15 attempt(s)"));
                assert!(reason.contains("/dev/dri/card1 (EBUSY): busy | debug=Busy"));
                break;
            }
        }
    }
    assert_eq!(search.attempt(), MAX_OPEN_RETRIES);
    assert_eq!(probes, 2 * 15);
    assert_eq!(waits, 14);
    assert_eq!(RETRY_DELAY_MS, 750);
}

#[test]
fn one_busy_card_is_enough_to_try_again() {
    let mut search = started();
    assert!(matches!(search.probe_failed(true, "busy", "Busy"), CardAction::Probe(1)));
    assert!(matches!(search.probe_failed(false, "gone", "Gone"), CardAction::Wait));
    assert_eq!(search.attempt(), 2);
    assert_eq!(search.path(), "/dev/dri/card0");
    assert!(matches!(search.probe_failed(false, "gone", "Gone"), CardAction::Probe(1)));
    assert!(matches!(search.probe_failed(false, "gone", "Gone"), CardAction::GiveUp(_)));
}

#[test]
fn frames_are_copied_as_far_as_they_reach() {
    let mut target = [9u8; 4];
    copy_frame(&vec![1, 2], &mut target);
    assert_eq!(target, [1, 2, 9, 9]);
    copy_frame(&vec![5, 6, 7, 8, 1], &mut target);
    assert_eq!(target, [5, 6, 7, 8]);
}

#[test]
fn bitmaps_are_white_where_bits_are_clear() {
    let mut target = [7u8; 33];
    draw_bitmap(&[0b1000_0010], &mut target);
    for pixel in 0..8 {
        let color = if pixel == 1 || pixel == 7 { 0 } else { 0xff };
        for byte in 0..4 {
            assert_eq!(target[4 * pixel + byte], color);
        }
    }
    assert_eq!(target[32], 7);
}
