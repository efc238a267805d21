use termviz::angle::QUARTER_TURN;
use termviz::canvas::{Canvas, Cell, Color};
use termviz::drawable::{Drawable, Look};
use termviz::geometry::{Point, Pose3, Stamp};
use termviz::keymap::{key_from_name, KeyMap};
use termviz::message::{
    Footprint, Header, Kind, MarkerSet, Message, Occupancy, OccupancyMap, PointCloud, RangeScan,
};
use termviz::mode::{copy_action, names, Action, Binding, Key, Mode, ModeController, Policy};
use termviz::occupancy::MapStyle;
use termviz::registry::ListenerRegistry;
use termviz::render_loop::{
    startup_gate, tick_period_millis, RenderLoop, Startup, DEFAULT_ZOOM, STARTUP_RETRY_MILLIS,
};
use termviz::scan::Style;
use termviz::viewport::Viewport;

fn header(frame: &str) -> Header {
    Header { frame_id: frame.to_string(), stamp: Stamp { sec: 3, nsec: 4 } }
}

fn pose(x: i64, y: i64, yaw: i64) -> Pose3 {
    Pose3 { x, y, z: 0, yaw, stamp: Stamp { sec: 0, nsec: 0 } }
}

fn scan_message(ranges: Vec<Option<i64>>) -> Message {
    let last = (ranges.len() as i64 - 1) * QUARTER_TURN;
    Message::RangeScan(RangeScan {
        header: header("laser"),
        angle_min: 0,
        angle_max: last,
        angle_increment: QUARTER_TURN,
        range_min: 0,
        range_max: 100_000,
        ranges,
    })
}

fn outline_message(side: i64) -> Message {
    Message::Footprint(Footprint {
        header: header("base_link"),
        vertices: vec![
            Point { x: side, y: side },
            Point { x: -side, y: side },
            Point { x: -side, y: -side },
            Point { x: side, y: -side },
        ],
    })
}

#[test]
fn subscribe_gives_each_topic_one_mailbox() {
    let mut registry = ListenerRegistry::new();
    assert_eq!(registry.len(), 0);
    let scan = registry.subscribe("/scan".to_string(), Kind::RangeScan);
    let map = registry.subscribe("/map".to_string(), Kind::OccupancyMap);
    assert_eq!((scan, map), (0, 1));
    assert_eq!(registry.subscribe("/scan".to_string(), Kind::RangeScan), scan);
    assert_eq!(registry.subscribe("/scan".to_string(), Kind::PointCloud), scan);
    assert_eq!(registry.len(), 2);
    assert_eq!(registry.latest(scan), None);
    assert_eq!(registry.latest(map), None);
    assert_eq!(registry.latest(2), None);
}

#[test]
fn mailbox_keeps_only_the_newest_message() {
    let mut registry = ListenerRegistry::new();
    let scan = registry.subscribe("/scan".to_string(), Kind::RangeScan);
    let first = scan_message(vec![Some(1)]);
    let second = scan_message(vec![Some(2), Some(3)]);
    assert!(registry.publish(scan, first.clone()));
    assert!(registry.publish(scan, second.clone()));
    assert_eq!(registry.latest(scan), Some(&second));
    assert_eq!(registry.latest(scan), Some(&second));
    assert!(registry.publish(scan, first.clone()));
    assert_eq!(registry.latest(scan), Some(&first));
}

#[test]
fn mailboxes_do_not_disturb_each_other() {
    let mut registry = ListenerRegistry::new();
    let scan = registry.subscribe("/scan".to_string(), Kind::RangeScan);
    let outline = registry.subscribe("/footprint".to_string(), Kind::Footprint);
    let readings = scan_message(vec![Some(1)]);
    assert!(registry.publish(scan, readings.clone()));
    assert_eq!(registry.latest(outline), None);
    assert!(registry.publish(outline, outline_message(5)));
    assert_eq!(registry.latest(scan), Some(&readings));
    assert_eq!(registry.latest(outline), Some(&outline_message(5)));
}

#[test]
fn malformed_message_is_dropped_and_the_old_one_stays() {
    let mut registry = ListenerRegistry::new();
    let scan = registry.subscribe("/scan".to_string(), Kind::RangeScan);
    let good = scan_message(vec![Some(1), Some(2)]);
    assert!(registry.publish(scan, good.clone()));
    let bad = match scan_message(vec![Some(7), Some(8)]) {
        Message::RangeScan(mut s) => {
            s.ranges.push(Some(9));
            Message::RangeScan(s)
        }
        other => other,
    };
    assert!(!bad.is_well_formed());
    assert!(!registry.publish(scan, bad));
    assert_eq!(registry.latest(scan), Some(&good));
    let map = registry.subscribe("/map".to_string(), Kind::OccupancyMap);
    let broken = Message::OccupancyMap(OccupancyMap {
        header: header("map"),
        resolution: 50,
        width: 2,
        height: 2,
        origin: pose(0, 0, 0),
        cells: vec![Occupancy::Free; 3],
    });
    assert!(!registry.publish(map, broken));
    assert_eq!(registry.latest(map), None);
}

#[test]
fn message_of_another_kind_is_dropped() {
    let mut registry = ListenerRegistry::new();
    let scan = registry.subscribe("/scan".to_string(), Kind::RangeScan);
    assert!(!registry.publish(scan, outline_message(1)));
    assert_eq!(registry.latest(scan), None);
    assert!(!registry.publish(5, outline_message(1)));
    let cloud = Message::PointCloud(PointCloud { header: header("camera"), points: vec![] });
    let markers = Message::MarkerSet(MarkerSet { header: header("map"), markers: vec![] });
    assert_eq!(cloud.kind_of(), Kind::PointCloud);
    assert_eq!(markers.kind_of(), Kind::MarkerSet);
    assert_eq!(outline_message(1).kind_of(), Kind::Footprint);
    assert_eq!(scan_message(vec![Some(1)]).kind_of(), Kind::RangeScan);
    assert_eq!(cloud.header().frame_id, "camera");
    assert_eq!(markers.header().stamp, Stamp { sec: 3, nsec: 4 });
    assert!(cloud.is_well_formed() && markers.is_well_formed());
}

#[test]
fn unsubscribed_mailbox_takes_nothing() {
    let mut registry = ListenerRegistry::new();
    let scan = registry.subscribe("/scan".to_string(), Kind::RangeScan);
    assert!(registry.publish(scan, scan_message(vec![Some(1)])));
    registry.unsubscribe(scan);
    assert_eq!(registry.latest(scan), None);
    assert!(!registry.publish(scan, scan_message(vec![Some(2)])));
    assert_eq!(registry.latest(scan), None);
    registry.unsubscribe(17);
    let again = registry.subscribe("/scan".to_string(), Kind::RangeScan);
    assert_eq!(again, 1);
    assert_eq!(registry.latest(again), None);
    assert!(registry.publish(again, scan_message(vec![Some(3)])));
    assert_eq!(registry.latest(again), Some(&scan_message(vec![Some(3)])));
    assert_eq!(registry.latest(scan), None);
}

const MAP: u32 = 1;
const SCAN: u32 = 2;
const MARKERS: u32 = 3;

fn style(glyph: char) -> Style {
    Style { glyph, color: Color::White }
}

fn drawables() -> Vec<Drawable> {
    let map_style = MapStyle { occupied: Some(style('#')), free: None, unknown: None };
    vec![
        Drawable { id: MAP, source: 0, active: false, look: Look::OccupancyMap(map_style) },
        Drawable { id: SCAN, source: 1, active: false, look: Look::RangeScan(style('*')) },
        Drawable { id: MARKERS, source: 2, active: true, look: Look::MarkerSet(style('+')) },
    ]
}

fn bind(key: char, action: Action) -> Binding {
    Binding { key: Key::Char(key), action }
}

fn modes() -> Vec<Mode> {
    vec![
        Mode {
            name: "A".to_string(),
            active: vec![MAP, SCAN],
            policy: Policy::Fixed,
            bindings: vec![
                bind('b', Action::SwitchMode("B".to_string())),
                bind('t', Action::ToggleDrawable(SCAN)),
                bind('l', Action::PanViewport(100, 0)),
                bind('k', Action::PanViewport(0, 100)),
                bind('+', Action::ZoomViewport(500)),
                bind('r', Action::RotateViewport(QUARTER_TURN)),
                bind('q', Action::Quit),
                bind('x', Action::SwitchMode("nowhere".to_string())),
                bind('l', Action::Quit),
                bind('5', Action::Quit),
            ],
        },
        Mode {
            name: "B".to_string(),
            active: vec![SCAN, MARKERS],
            policy: Policy::Follow,
            bindings: vec![
                Binding { key: Key::Esc, action: Action::SwitchMode("A".to_string()) },
                bind('t', Action::ToggleDrawable(MARKERS)),
            ],
        },
    ]
}

fn shown(drawables: &Vec<Drawable>) -> Vec<u32> {
    drawables.iter().filter(|d| d.active).map(|d| d.id).collect()
}

#[test]
fn controller_needs_a_mode() {
    assert!(ModeController::new(vec![]).is_none());
    let controller = ModeController::new(modes()).unwrap();
    assert_eq!(controller.current(), 0);
    assert_eq!(controller.current_mode().name, "A");
    assert_eq!(controller.find_mode(&"B".to_string()), Some(1));
    assert_eq!(controller.find_mode(&"C".to_string()), None);
}

#[test]
fn keys_stand_for_the_actions_of_the_current_mode() {
    let controller = ModeController::new(modes()).unwrap();
    assert_eq!(controller.action_for(Key::Char('q')), Action::Quit);
    assert_eq!(controller.action_for(Key::Char('b')), Action::SwitchMode("B".to_string()));
    assert_eq!(controller.action_for(Key::Char('l')), Action::PanViewport(100, 0));
    assert_eq!(controller.action_for(Key::Char('+')), Action::ZoomViewport(500));
    assert_eq!(controller.action_for(Key::Char('r')), Action::RotateViewport(QUARTER_TURN));
    assert_eq!(controller.action_for(Key::Char('t')), Action::ToggleDrawable(SCAN));
}

#[test]
fn unknown_keys_are_unmapped() {
    let controller = ModeController::new(modes()).unwrap();
    assert_eq!(controller.action_for(Key::Char('z')), Action::Unmapped);
    assert_eq!(controller.action_for(Key::Esc), Action::Unmapped);
    assert_eq!(controller.action_for(Key::Ctrl('q')), Action::Unmapped);
    assert_eq!(controller.action_for(Key::Other), Action::Unmapped);
    assert_eq!(controller.action_for(Key::Char('Q')), Action::Unmapped);
}

#[test]
fn digits_select_modes_directly() {
    let controller = ModeController::new(modes()).unwrap();
    assert_eq!(controller.action_for(Key::Char('0')), Action::SwitchMode("A".to_string()));
    assert_eq!(controller.action_for(Key::Char('1')), Action::SwitchMode("B".to_string()));
    for digit in ['2', '3', '4', '5', '6', '7', '8', '9'] {
        assert_eq!(controller.action_for(Key::Char(digit)), Action::Unmapped);
    }
}

#[test]
fn switching_modes_shows_the_declared_set() {
    let mut controller = ModeController::new(modes()).unwrap();
    let mut view = Viewport::new(Point { x: 0, y: 0 }, 100, 0, 10, 10);
    let mut list = drawables();
    for d in list.iter_mut() {
        d.active = d.id == MAP || d.id == SCAN;
    }
    assert_eq!(shown(&list), vec![MAP, SCAN]);
    let before = list.clone();
    let quit = controller.apply(&Action::SwitchMode("B".to_string()), &mut list, &mut view);
    assert!(!quit);
    assert_eq!(controller.current(), 1);
    assert_eq!(shown(&list), vec![SCAN, MARKERS]);
    assert_eq!(list[1], before[1]);
    for (after, was) in list.iter().zip(before.iter()) {
        assert_eq!((after.id, after.source, after.look), (was.id, was.source, was.look));
    }
    assert_eq!(view.center(), Point { x: 0, y: 0 });
    controller.apply(&Action::SwitchMode("A".to_string()), &mut list, &mut view);
    assert_eq!(controller.current(), 0);
    assert_eq!(shown(&list), vec![MAP, SCAN]);
}

#[test]
fn switching_leaves_shared_drawables_as_they_are() {
    let mut controller = ModeController::new(modes()).unwrap();
    let mut view = Viewport::new(Point { x: 0, y: 0 }, 100, 0, 10, 10);
    let mut list = drawables();
    list[0].active = true;
    list[1].active = false;
    list[2].active = false;
    controller.apply(&Action::SwitchMode("B".to_string()), &mut list, &mut view);
    assert_eq!(shown(&list), vec![MARKERS]);
}

#[test]
fn switching_to_an_unknown_mode_changes_nothing() {
    let mut controller = ModeController::new(modes()).unwrap();
    let mut view = Viewport::new(Point { x: 0, y: 0 }, 100, 0, 10, 10);
    let mut list = drawables();
    let before = list.clone();
    assert!(!controller.apply(&Action::SwitchMode("nowhere".to_string()), &mut list, &mut view));
    assert_eq!(controller.current(), 0);
    assert_eq!(list, before);
}

#[test]
fn actions_change_what_they_name() {
    let mut controller = ModeController::new(modes()).unwrap();
    let mut view = Viewport::new(Point { x: 0, y: 0 }, 100, 0, 10, 10);
    let mut list = drawables();
    assert!(!controller.apply(&Action::ToggleDrawable(SCAN), &mut list, &mut view));
    assert_eq!(shown(&list), vec![SCAN, MARKERS]);
    controller.apply(&Action::ToggleDrawable(SCAN), &mut list, &mut view);
    assert_eq!(shown(&list), vec![MARKERS]);
    controller.apply(&Action::ToggleDrawable(99), &mut list, &mut view);
    assert_eq!(shown(&list), vec![MARKERS]);
    controller.apply(&Action::PanViewport(7, -9), &mut list, &mut view);
    assert_eq!(view.center(), Point { x: 7, y: -9 });
    controller.apply(&Action::ZoomViewport(2500), &mut list, &mut view);
    assert_eq!(view.zoom(), 250);
    controller.apply(&Action::RotateViewport(-QUARTER_TURN), &mut list, &mut view);
    assert_eq!(view.rotation(), 3 * QUARTER_TURN);
    assert!(!controller.apply(&Action::Unmapped, &mut list, &mut view));
    assert!(controller.apply(&Action::Quit, &mut list, &mut view));
    assert_eq!(view.center(), Point { x: 7, y: -9 });
    assert_eq!(shown(&list), vec![MARKERS]);
    assert_eq!(controller.current(), 0);
}

#[test]
fn small_helpers() {
    assert!(names(&vec![1, 2, 3], 2));
    assert!(!names(&vec![1, 2, 3], 4));
    assert!(!names(&vec![], 0));
    let action = Action::SwitchMode("B".to_string());
    assert_eq!(copy_action(&action), action);
    assert_eq!(copy_action(&Action::PanViewport(1, 2)), Action::PanViewport(1, 2));
}

fn display() -> RenderLoop {
    RenderLoop::new(ModeController::new(modes()).unwrap(), drawables(), 11, 11)
}

#[test]
fn fresh_display_shows_the_first_mode() {
    let display = display();
    assert_eq!(display.controller.current(), 0);
    assert_eq!(shown(&display.drawables), vec![MAP, SCAN]);
    assert_eq!(display.viewport.center(), Point { x: 0, y: 0 });
    assert_eq!(display.viewport.zoom(), DEFAULT_ZOOM);
    assert_eq!(display.viewport.rotation(), 0);
    assert_eq!((display.viewport.width(), display.viewport.height()), (11, 11));
    assert_eq!((display.canvas.width(), display.canvas.height()), (11, 11));
    for line in display.frame() {
        for cell in line {
            assert_eq!(cell, None);
        }
    }
}

#[test]
fn keys_are_handled_one_by_one() {
    let mut display = display();
    assert!(!display.handle_input(Key::Char('l')));
    assert_eq!(display.viewport.center(), Point { x: 100, y: 0 });
    assert!(!display.handle_input(Key::Char('z')));
    assert!(!display.handle_input(Key::Char('b')));
    assert_eq!(display.controller.current(), 1);
    assert_eq!(shown(&display.drawables), vec![SCAN, MARKERS]);
    assert!(!display.handle_input(Key::Char('l')));
    assert_eq!(display.viewport.center(), Point { x: 100, y: 0 });
    assert!(!display.handle_input(Key::Char('q')));
    assert!(!display.handle_input(Key::Esc));
    assert_eq!(display.controller.current(), 0);
    assert!(!display.handle_input(Key::Char('5')));
    assert!(display.handle_input(Key::Char('q')));
    assert!(display.handle_input(Key::Ctrl('c')));
    assert!(!display.handle_input(Key::Ctrl('d')));
}

fn registry_with_scan_and_outline() -> ListenerRegistry {
    let mut registry = ListenerRegistry::new();
    registry.subscribe("/map".to_string(), Kind::OccupancyMap);
    registry.subscribe("/scan".to_string(), Kind::RangeScan);
    registry.subscribe("/markers".to_string(), Kind::MarkerSet);
    assert!(registry.publish(1, scan_message(vec![Some(300)])));
    registry
}

fn drawn_cells(canvas: &Canvas) -> Vec<(i64, i64, char)> {
    let mut cells = Vec::new();
    for (row, line) in canvas.snapshot_for_flush().iter().enumerate() {
        for (col, cell) in line.iter().enumerate() {
            if let Some(c) = cell {
                cells.push((col as i64, row as i64, c.glyph));
            }
        }
    }
    cells
}

#[test]
fn frame_shows_the_newest_snapshots() {
    let mut display = display();
    let mut registry = registry_with_scan_and_outline();
    let here = Some(pose(0, 0, 0));
    display.draw(None, &registry, &vec![here, here, here]);
    assert_eq!(drawn_cells(&display.canvas), vec![(8, 5, '*')]);
    assert!(registry.publish(1, scan_message(vec![Some(100), Some(200)])));
    display.draw(None, &registry, &vec![here, here, here]);
    assert_eq!(drawn_cells(&display.canvas), vec![(5, 3, '*'), (6, 5, '*')]);
    assert_eq!(display.frame()[3][5], Some(Cell { glyph: '*', color: Color::White }));
}

#[test]
fn drawable_without_transform_is_skipped_for_the_frame() {
    let mut display = display();
    let registry = registry_with_scan_and_outline();
    let here = Some(pose(0, 0, 0));
    display.draw(None, &registry, &vec![here, None, here]);
    assert_eq!(drawn_cells(&display.canvas), vec![]);
    display.draw(None, &registry, &vec![here]);
    assert_eq!(drawn_cells(&display.canvas), vec![]);
    display.draw(None, &registry, &vec![None, here]);
    assert_eq!(drawn_cells(&display.canvas), vec![(8, 5, '*')]);
}

#[test]
fn hidden_drawables_are_not_drawn() {
    let mut display = display();
    let registry = registry_with_scan_and_outline();
    let here = Some(pose(0, 0, 0));
    display.handle_input(Key::Char('t'));
    display.draw(None, &registry, &vec![here, here, here]);
    assert_eq!(drawn_cells(&display.canvas), vec![]);
    display.handle_input(Key::Char('t'));
    display.draw(None, &registry, &vec![here, here, here]);
    assert_eq!(drawn_cells(&display.canvas), vec![(8, 5, '*')]);
}

#[test]
fn later_drawables_are_drawn_over_earlier_ones() {
    let controller = ModeController::new(modes()).unwrap();
    let list = vec![
        Drawable { id: SCAN, source: 0, active: true, look: Look::RangeScan(style('*')) },
        Drawable { id: MAP, source: 1, active: true, look: Look::Footprint(style('#')) },
    ];
    let mut display = RenderLoop::new(controller, list, 11, 11);
    let mut registry = ListenerRegistry::new();
    registry.subscribe("/scan".to_string(), Kind::RangeScan);
    registry.subscribe("/footprint".to_string(), Kind::Footprint);
    assert!(registry.publish(0, scan_message(vec![Some(100), Some(300)])));
    assert!(registry.publish(1, outline_message(100)));
    let here = Some(pose(0, 0, 0));
    display.draw(None, &registry, &vec![here, here]);
    assert_eq!(display.canvas.get(6, 5).unwrap().glyph, '#');
    assert_eq!(display.canvas.get(5, 2).unwrap().glyph, '*');
    assert_eq!(display.canvas.get(5, 5), None);
    assert_eq!(drawn_cells(&display.canvas).len(), 9);
}

#[test]
fn view_follows_the_robot_where_the_mode_says_so() {
    let mut display = display();
    let registry = registry_with_scan_and_outline();
    let robot = Some(pose(700, -300, 0));
    display.draw(robot, &registry, &vec![]);
    assert_eq!(display.viewport.center(), Point { x: 0, y: 0 });
    display.handle_input(Key::Char('b'));
    display.draw(None, &registry, &vec![]);
    assert_eq!(display.viewport.center(), Point { x: 0, y: 0 });
    display.draw(robot, &registry, &vec![]);
    assert_eq!(display.viewport.center(), Point { x: 700, y: -300 });
}

#[test]
fn tick_handles_keys_then_draws() {
    let mut display = display();
    let registry = registry_with_scan_and_outline();
    let here = Some(pose(0, 0, 0));
    let quit = display.tick(
        &vec![Key::Char('l'), Key::Char('l'), Key::Char('z')],
        None,
        &registry,
        &vec![here, here, here],
    );
    assert!(!quit);
    assert_eq!(display.viewport.center(), Point { x: 200, y: 0 });
    assert_eq!(drawn_cells(&display.canvas), vec![(6, 5, '*')]);
    let quit = display.tick(
        &vec![Key::Char('q'), Key::Char('k')],
        None,
        &registry,
        &vec![here, here, here],
    );
    assert!(quit);
    assert_eq!(display.viewport.center(), Point { x: 200, y: 100 });
    assert_eq!(drawn_cells(&display.canvas), vec![(6, 6, '*')]);
    assert!(display.tick(&vec![Key::Ctrl('c')], None, &registry, &vec![]));
    assert!(!display.tick(&vec![], None, &registry, &vec![]));
    assert_eq!(drawn_cells(&display.canvas), vec![]);
}

#[test]
fn resize_makes_a_blank_canvas() {
    let mut display = display();
    let registry = registry_with_scan_and_outline();
    let here = Some(pose(0, 0, 0));
    display.draw(None, &registry, &vec![here, here, here]);
    display.resize(21, 7);
    assert_eq!((display.canvas.width(), display.canvas.height()), (21, 7));
    assert_eq!((display.viewport.width(), display.viewport.height()), (21, 7));
    assert_eq!(drawn_cells(&display.canvas), vec![]);
    display.draw(None, &registry, &vec![here, here, here]);
    assert_eq!(drawn_cells(&display.canvas), vec![(13, 3, '*')]);
}

#[test]
fn startup_waits_for_the_transform() {
    assert_eq!(startup_gate(true, false), Startup::Wait(STARTUP_RETRY_MILLIS));
    assert_eq!(startup_gate(true, false), Startup::Wait(100));
    assert_eq!(startup_gate(true, true), Startup::Enter);
    assert_eq!(startup_gate(false, false), Startup::Enter);
    assert_eq!(startup_gate(false, true), Startup::Enter);
}

#[test]
fn tick_period_follows_the_frame_rate() {
    assert_eq!(tick_period_millis(1), 1000);
    assert_eq!(tick_period_millis(30), 33);
    assert_eq!(tick_period_millis(60), 16);
    assert_eq!(tick_period_millis(1000), 1);
    assert_eq!(tick_period_millis(1001), 0);
}

fn pairs(items: &[(&str, &str)]) -> Vec<(String, String)> {
    items.iter().map(|(input, key)| (input.to_string(), key.to_string())).collect()
}

#[test]
fn keys_are_named_in_the_configuration() {
    assert_eq!(key_from_name("Enter"), Key::Char('\n'));
    assert_eq!(key_from_name("Esc"), Key::Esc);
    assert_eq!(key_from_name("a"), Key::Char('a'));
    assert_eq!(key_from_name("abc"), Key::Char('a'));
    assert_eq!(key_from_name("enter"), Key::Char('e'));
    assert_eq!(key_from_name("Escape"), Key::Char('E'));
    assert_eq!(key_from_name("\u{e9}t\u{e9}"), Key::Char('\u{e9}'));
}

#[test]
fn key_map_of_a_configuration() {
    let map = KeyMap::from_config(&pairs(&[
        ("up", "w"),
        ("down", "s"),
        ("mode_2", "m"),
        ("confirm", "Enter"),
        ("cancel", "Esc"),
    ]));
    assert_eq!(map.input_for(Key::Char('w')), "up");
    assert_eq!(map.input_for(Key::Char('s')), "down");
    assert_eq!(map.input_for(Key::Char('m')), "mode_2");
    assert_eq!(map.input_for(Key::Char('\n')), "confirm");
    assert_eq!(map.input_for(Key::Esc), "cancel");
    assert_eq!(map.input_for(Key::Char('x')), "unmapped");
    assert_eq!(map.input_for(Key::Ctrl('w')), "unmapped");
    assert_eq!(map.input_for(Key::Other), "unmapped");
}

#[test]
fn digits_are_reserved_in_the_key_map() {
    let map = KeyMap::from_config(&pairs(&[("boom", "3"), ("bang", "9"), ("up", "w")]));
    for (digit, name) in [
        ('0', "0"),
        ('1', "1"),
        ('2', "2"),
        ('3', "3"),
        ('4', "4"),
        ('5', "5"),
        ('6', "6"),
        ('7', "7"),
        ('8', "8"),
        ('9', "9"),
    ] {
        assert_eq!(map.input_for(Key::Char(digit)), name);
    }
    assert_eq!(map.input_for(Key::Char('w')), "up");
    let bare = KeyMap::from_config(&vec![]);
    assert_eq!(bare.input_for(Key::Char('7')), "7");
    assert_eq!(bare.input_for(Key::Char('a')), "unmapped");
}

#[test]
fn key_named_twice_keeps_the_last_input() {
    let mut map = KeyMap::new();
    assert_eq!(map.input_for(Key::Char('a')), "unmapped");
    map.insert(Key::Char('a'), "first".to_string());
    map.insert(Key::Esc, "other".to_string());
    map.insert(Key::Char('a'), "second".to_string());
    assert_eq!(map.input_for(Key::Char('a')), "second");
    assert_eq!(map.input_for(Key::Esc), "other");
    let configured = KeyMap::from_config(&pairs(&[("one", "k"), ("two", "k")]));
    assert_eq!(configured.input_for(Key::Char('k')), "two");
}

#[test]
fn loop_asks_for_the_transforms_it_needs() {
    let controller = ModeController::new(modes()).unwrap();
    let list = vec![
        Drawable { id: MAP, source: 0, active: true, look: Look::OccupancyMap(MapStyle {
            occupied: Some(style('#')),
            free: None,
            unknown: None,
        }) },
        Drawable { id: SCAN, source: 1, active: true, look: Look::RangeScan(style('*')) },
        Drawable { id: MARKERS, source: 2, active: true, look: Look::MarkerSet(style('+')) },
        Drawable { id: SCAN, source: 7, active: true, look: Look::PoseGlyph(Color::Red) },
        Drawable { id: 9, source: 1, active: true, look: Look::Footprint(style('o')) },
    ];
    let mut display = RenderLoop::new(controller, list, 11, 11);
    let registry = registry_with_scan_and_outline();
    let frame = termviz::render_loop::Lookup::Frame(header("laser"));
    assert_eq!(
        display.lookups(&registry),
        vec![None, Some(frame.clone()), None, Some(termviz::render_loop::Lookup::Robot), None]
    );
    display.handle_input(Key::Char('t'));
    assert_eq!(display.lookups(&registry), vec![None, None, None, None, None]);
    display.drawables[4].active = true;
    display.drawables[3].active = true;
    assert_eq!(
        display.lookups(&registry),
        vec![None, None, None, Some(termviz::render_loop::Lookup::Robot), Some(frame)]
    );
}
