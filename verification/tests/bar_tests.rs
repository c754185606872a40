use mybar::bspwm::{Bspwm, Desktop, DesktopEnum, Monitor};
use mybar::bspwm::bspwm_socket_path;
use mybar::components::Bounds;
use mybar::components::bspwm::{bspwm_bounds, desktop_glyph, monitor_color};
use mybar::components::date::date_bounds;
use mybar::components::title::title_bounds;
use mybar::components::volume::volume_bounds;
use mybar::components::light::light_bounds;
use mybar::dispatch::{dispatch, first_hit, Action, BarEvent};
use mybar::dispatch::{BSPWM_INDEX, DATE_INDEX, TITLE_INDEX, VOLUME_INDEX};
use mybar::x11::{select_visual, strut_partial, VisualCandidate};

fn empty_bspwm() -> Bspwm {
    Bspwm { monitors: Vec::new() }
}

fn desktops_of(m: &Monitor) -> Vec<(&str, DesktopEnum)> {
    m.desktops.iter().map(|d: &Desktop| (d.name.as_str(), d.state)).collect()
}

#[test]
fn parser_single_report() {
    // One report line: an active monitor section, three desktop entries,
    // a skipped layout segment.  The tag character opens each entry; the
    // rest up to the next `:` is its name.
    let mut b = empty_bspwm();
    b.parse_report("M eDP-1:Of1:of2:om3:LT\n");
    assert_eq!(b.monitors.len(), 1);
    let m = &b.monitors[0];
    assert_eq!(m.name, " eDP-1");
    assert!(m.is_active);
    assert_eq!(
        desktops_of(m),
        vec![
            ("f1", DesktopEnum::FOCUSED),
            ("f2", DesktopEnum::OCCUPIED),
            ("m3", DesktopEnum::OCCUPIED),
        ]
    );
}

#[test]
fn parser_two_reports_two_monitors() {
    let mut b = empty_bspwm();
    b.parse_report("m HDMI:of1:of2:\n");
    b.parse_report("M eDP:Of1:\n");
    assert_eq!(b.monitors.len(), 2);
    assert_eq!(b.monitors[0].name, " HDMI");
    assert!(!b.monitors[0].is_active);
    assert_eq!(
        desktops_of(&b.monitors[0]),
        vec![("f1", DesktopEnum::OCCUPIED), ("f2", DesktopEnum::OCCUPIED)]
    );
    assert_eq!(b.monitors[1].name, " eDP");
    assert!(b.monitors[1].is_active);
    assert_eq!(desktops_of(&b.monitors[1]), vec![("f1", DesktopEnum::FOCUSED)]);
}

#[test]
fn parser_is_idempotent_on_same_report() {
    let report = "M eDP-1:Of1:of2:om3:LT\n";
    let mut b = empty_bspwm();
    b.parse_report(report);
    let once = format!("{:?}", b);
    b.parse_report(report);
    let twice = format!("{:?}", b);
    assert_eq!(once, twice);
}

#[test]
fn parser_updates_existing_monitor() {
    let mut b = empty_bspwm();
    b.parse_report("MA:Of1:\n");
    b.parse_report("mA:of1:\n");
    assert_eq!(b.monitors.len(), 1);
    assert!(!b.monitors[0].is_active);
    assert_eq!(desktops_of(&b.monitors[0]), vec![("f1", DesktopEnum::OCCUPIED)]);
}

#[test]
fn parser_skips_garbage() {
    let mut b = empty_bspwm();
    b.parse_report("xyz&&123\n");
    assert!(b.monitors.is_empty());
    b.parse_report("MA:@@Of1:\n");
    assert_eq!(b.monitors.len(), 1);
    assert_eq!(desktops_of(&b.monitors[0]), vec![("f1", DesktopEnum::FOCUSED)]);
}

#[test]
fn parser_drops_desktop_before_any_monitor() {
    let mut b = empty_bspwm();
    b.parse_report("Of1:MA:\n");
    assert_eq!(b.monitors.len(), 1);
    assert_eq!(b.monitors[0].name, "A");
    assert!(b.monitors[0].desktops.is_empty());
}

#[test]
fn desktop_tag_characters() {
    assert_eq!(DesktopEnum::from_char('o'), Some(DesktopEnum::OCCUPIED));
    assert_eq!(DesktopEnum::from_char('u'), Some(DesktopEnum::URGENT));
    assert_eq!(DesktopEnum::from_char('F'), Some(DesktopEnum::FOCUSED));
    assert_eq!(DesktopEnum::from_char('U'), Some(DesktopEnum::FOCUSED));
    assert_eq!(DesktopEnum::from_char('O'), Some(DesktopEnum::FOCUSED));
    assert_eq!(DesktopEnum::from_char('f'), Some(DesktopEnum::FREE));
    assert_eq!(DesktopEnum::from_char('?'), Some(DesktopEnum::FREE));
}

#[test]
fn wm_update_renders_active_monitor_and_glyphs() {
    // Feeding one report must show the monitor active (pink), its focused
    // desktop as a pink filled dot and its occupied one as a white ring.
    let mut b = empty_bspwm();
    b.parse_report("M A:Of1:of2:\n");
    let m = &b.monitors[0];
    assert_eq!(monitor_color(m.is_active), "#ff3399");
    let glyphs: Vec<(&str, &str, bool)> =
        m.desktops.iter().map(|d: &Desktop| desktop_glyph(d.state)).collect();
    assert_eq!(glyphs[0], ("\u{25cf}", "#ff3399", true));
    assert_eq!(glyphs[1], ("\u{25cb}", "#ffffff", true));
}

#[test]
fn free_desktops_are_hidden() {
    let (_, _, show) = desktop_glyph(DesktopEnum::FREE);
    assert!(!show);
    assert_eq!(desktop_glyph(DesktopEnum::URGENT), ("!", "#ff0000", true));
    assert_eq!(monitor_color(false), "#666666");
}

#[test]
fn strut_reserves_bottom_edge_only() {
    let strut = strut_partial(40);
    assert_eq!(strut.len(), 12);
    for (i, v) in strut.iter().enumerate() {
        if i == 3 {
            assert_eq!(*v, 40);
        } else {
            assert_eq!(*v, 0);
        }
    }
}

#[test]
fn visual_selection_takes_last_argb_candidate() {
    let cands = vec![
        VisualCandidate { depth: 24, is_truecolor: true },
        VisualCandidate { depth: 32, is_truecolor: true },
        VisualCandidate { depth: 32, is_truecolor: false },
        VisualCandidate { depth: 32, is_truecolor: true },
        VisualCandidate { depth: 8, is_truecolor: false },
    ];
    assert_eq!(select_visual(&cands), Some(3));
    let none = vec![VisualCandidate { depth: 24, is_truecolor: true }];
    assert_eq!(select_visual(&none), None);
    assert_eq!(select_visual(&Vec::new()), None);
}

fn bar_bounds() -> Vec<Bounds> {
    vec![light_bounds(), volume_bounds(), date_bounds(), title_bounds(), bspwm_bounds()]
}

#[test]
fn button_press_reaches_exactly_first_hit() {
    let bounds = bar_bounds();
    // (50, 10) lies in both the title and the desktops regions; the title
    // comes first in declaration order and alone receives the event.
    assert_eq!(first_hit(&bounds, 50, 10), Some(TITLE_INDEX));
    let action = dispatch(&bounds, &BarEvent::ButtonPress { x: 50, y: 10, button: 1 });
    assert_eq!(action, Action::Deliver { index: TITLE_INDEX });
    // (1450, 10) lies only in the volume region.
    let action = dispatch(&bounds, &BarEvent::ButtonPress { x: 1450, y: 10, button: 4 });
    assert_eq!(action, Action::Deliver { index: VOLUME_INDEX });
    // A point outside every region reaches no handler.
    let action = dispatch(&bounds, &BarEvent::ButtonPress { x: 5000, y: 10, button: 1 });
    assert_eq!(action, Action::Nothing);
}

#[test]
fn bounds_borders_are_inclusive() {
    let b = Bounds { x: 10, y: 0, width: 100, height: 40 };
    assert!(b.contains_point(10, 0));
    assert!(b.contains_point(110, 40));
    assert!(!b.contains_point(111, 10));
    assert!(!b.contains_point(9, 10));
    assert!(!b.contains_point(50, 41));
}

#[test]
fn expose_redraws_all_once() {
    let bounds = bar_bounds();
    assert_eq!(dispatch(&bounds, &BarEvent::Expose { count: 0 }), Action::RedrawAll);
    assert_eq!(dispatch(&bounds, &BarEvent::Expose { count: 2 }), Action::Nothing);
}

#[test]
fn key_press_is_broadcast() {
    let bounds = bar_bounds();
    assert_eq!(
        dispatch(&bounds, &BarEvent::KeyPress { keycode: 30 }),
        Action::Broadcast
    );
}

#[test]
fn client_message_redraws_only_its_indicator() {
    let bounds = bar_bounds();
    assert_eq!(
        dispatch(&bounds, &BarEvent::ClientMessage { word: 0 }),
        Action::Redraw { index: DATE_INDEX }
    );
    assert_eq!(
        dispatch(&bounds, &BarEvent::ClientMessage { word: 1 }),
        Action::Redraw { index: BSPWM_INDEX }
    );
}

#[test]
fn title_property_change_redraws_title() {
    let bounds = bar_bounds();
    assert_eq!(
        dispatch(&bounds, &BarEvent::PropertyNotify { is_title_atom: true }),
        Action::Redraw { index: TITLE_INDEX }
    );
    assert_eq!(
        dispatch(&bounds, &BarEvent::PropertyNotify { is_title_atom: false }),
        Action::Nothing
    );
    assert_eq!(dispatch(&bounds, &BarEvent::Other), Action::Nothing);
}

#[test]
fn socket_path_from_display() {
    let p = bspwm_socket_path("myhost", 0, 0);
    assert_eq!(p, "/tmp/bspwmmyhost_0_0-socket");
    let p = bspwm_socket_path("", 1, 2);
    assert_eq!(p, "/tmp/bspwm_1_2-socket");
}
