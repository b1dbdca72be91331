use dashboard::message::Message;
use dashboard::table::{
    fit_text, floor_div, inner_width, separator_px, Interaction, Pending, Point, PointerEvent,
    PointerState, Status, GRAB, LINE_HEIGHT, MIN_GAP, PADDING, SCALE,
};
use dashboard::tasks::{ProcessInfo, TasksListChart};

const EXTENT: i32 = 810_000;

fn table() -> TasksListChart {
    let mut table = TasksListChart::new();
    table.separators = vec![80_000, 170_000, 250_000, 370_000, 440_000, 510_000];
    table
}

fn at(x: i32, y: i32) -> Option<Point> {
    Some(Point { x, y })
}

fn dragging(selected: usize, diff: i32) -> PointerState {
    PointerState {
        pending: Some(Pending::One { selected, diff }),
        interaction: Interaction::ResizingHorizontally,
    }
}

fn process(pid: usize) -> ProcessInfo {
    ProcessInfo {
        pid,
        nice: String::from("0"),
        status: String::from("S"),
        user: String::from("root"),
        cpu: 0,
        memory: 0,
        cmd: String::from("x"),
    }
}

#[test]
fn constants_of_the_table() {
    assert_eq!(PADDING, 5_000);
    assert_eq!(LINE_HEIGHT, 18_000);
    assert_eq!(GRAB, 2_500);
    assert_eq!(MIN_GAP, 5_000);
    assert_eq!(SCALE, 1_000_000);
}

#[test]
fn floor_division_rounds_down() {
    assert_eq!(floor_div(7, 2), 3);
    assert_eq!(floor_div(-7, 2), -4);
    assert_eq!(floor_div(-8, 2), -4);
    assert_eq!(floor_div(-1, 10), -1);
    assert_eq!(floor_div(0, 10), 0);
    assert_eq!(floor_div(9, 10), 0);
    assert_eq!(floor_div(-10, 10), -1);
}

#[test]
fn separator_positions() {
    assert_eq!(inner_width(EXTENT), 800_000);
    assert_eq!(inner_width(0), -10_000);
    assert_eq!(separator_px(250_000, 800_000), 205_000);
    assert_eq!(separator_px(0, 800_000), 5_000);
    assert_eq!(separator_px(1_000_000, 800_000), 805_000);
    assert_eq!(separator_px(83_333, 100_000), 13_333);
    assert_eq!(separator_px(250_000, -10_000), 2_500);
    assert_eq!(separator_px(333_333, -10_000), 1_666);
}

#[test]
fn a_drag_too_close_to_the_lower_neighbour_is_rejected() {
    let table = table();
    let mut state = dragging(2, 0);
    let (status, message) =
        table.update(&mut state, PointerEvent::Moved { x: 143_000 }, EXTENT, at(143_000, 10_000));
    assert_eq!(status, Status::Captured);
    assert!(message.is_none());
    assert_eq!(table.separators[2], 250_000);
    assert_eq!(state, dragging(2, 0));
    let (_, at_the_gap) =
        table.update(&mut state, PointerEvent::Moved { x: 146_000 }, EXTENT, at(146_000, 10_000));
    assert!(at_the_gap.is_none());
    let (_, beyond) =
        table.update(&mut state, PointerEvent::Moved { x: 146_001 }, EXTENT, at(146_001, 10_000));
    assert!(matches!(beyond, Some(Message::DraggedTask(2, 176_251))));
}

#[test]
fn a_drag_too_close_to_the_upper_neighbour_is_rejected() {
    let table = table();
    let mut state = dragging(2, 0);
    let (_, message) =
        table.update(&mut state, PointerEvent::Moved { x: 296_000 }, EXTENT, at(296_000, 10_000));
    assert!(message.is_none());
    let (_, message) =
        table.update(&mut state, PointerEvent::Moved { x: 295_999 }, EXTENT, at(295_999, 10_000));
    assert!(matches!(message, Some(Message::DraggedTask(2, 363_748))));
}

#[test]
fn an_accepted_drag_asks_for_the_new_place() {
    let table = table();
    let mut state = dragging(2, 1_000);
    let (status, message) =
        table.update(&mut state, PointerEvent::Moved { x: 251_000 }, EXTENT, at(251_000, 300_000));
    assert_eq!(status, Status::Captured);
    assert!(matches!(message, Some(Message::DraggedTask(2, 306_250))));
    assert_eq!(state, dragging(2, 1_000));
    assert_eq!(table.separators[2], 250_000);
}

#[test]
fn the_first_and_last_separator_stop_at_the_edges() {
    let table = table();
    let mut first = dragging(0, 0);
    let (_, message) =
        table.update(&mut first, PointerEvent::Moved { x: 10_000 }, EXTENT, at(10_000, 10_000));
    assert!(message.is_none());
    let (_, message) =
        table.update(&mut first, PointerEvent::Moved { x: 10_001 }, EXTENT, at(10_001, 10_000));
    assert!(matches!(message, Some(Message::DraggedTask(0, 6_251))));
    let mut last = dragging(5, 0);
    let (_, message) =
        table.update(&mut last, PointerEvent::Moved { x: 800_000 }, EXTENT, at(800_000, 10_000));
    assert!(message.is_none());
    let (_, message) =
        table.update(&mut last, PointerEvent::Moved { x: 799_999 }, EXTENT, at(799_999, 10_000));
    assert!(matches!(message, Some(Message::DraggedTask(5, 993_748))));
}

#[test]
fn nothing_is_accepted_without_width() {
    let table = table();
    let mut state = dragging(2, 0);
    for extent in [0, 10_000, 5_000] {
        for x in [-20_000, 0, 4_000, 5_000, 20_000] {
            let (status, message) =
                table.update(&mut state, PointerEvent::Moved { x }, extent, at(x, 10_000));
            assert_eq!(status, Status::Captured);
            assert!(message.is_none());
        }
    }
}

#[test]
fn a_press_near_a_separator_starts_a_drag() {
    let table = table();
    let mut state = PointerState::new();
    let (status, message) =
        table.update(&mut state, PointerEvent::Pressed, EXTENT, at(206_500, 5_000));
    assert_eq!(status, Status::Captured);
    assert!(message.is_none());
    assert_eq!(state, dragging(2, 1_500));
    let mut state = PointerState::new();
    let _ = table.update(&mut state, PointerEvent::Pressed, EXTENT, at(202_500, 23_000));
    assert_eq!(state, dragging(2, -2_500));
    assert_eq!(table.mouse_interaction(&state), Interaction::ResizingHorizontally);
}

#[test]
fn a_press_outside_the_band_sorts_by_the_column() {
    let table = table();
    let columns = [(30_000, 0), (100_000, 1), (180_000, 2), (250_000, 3), (330_000, 4), (380_000, 5), (600_000, 6)];
    for (x, column) in columns {
        let mut state = PointerState::new();
        let (status, message) =
            table.update(&mut state, PointerEvent::Pressed, EXTENT, at(x, 10_000));
        assert_eq!(status, Status::Captured);
        match message {
            Some(Message::SortTasks(c)) => assert_eq!(c, column),
            _ => panic!("a press over a column sorts by it"),
        }
        assert_eq!(
            state,
            PointerState { pending: None, interaction: Interaction::Pointer }
        );
    }
}

#[test]
fn a_press_just_outside_the_band_is_no_grab() {
    let table = table();
    let mut state = PointerState::new();
    let (_, message) = table.update(&mut state, PointerEvent::Pressed, EXTENT, at(207_501, 10_000));
    assert!(matches!(message, Some(Message::SortTasks(3))));
    let mut state = PointerState::new();
    let (_, message) = table.update(&mut state, PointerEvent::Pressed, EXTENT, at(207_500, 10_000));
    assert!(message.is_none());
    assert_eq!(state, dragging(2, 2_500));
}

#[test]
fn a_press_below_the_header_does_nothing() {
    let table = table();
    let mut state = PointerState { pending: None, interaction: Interaction::Pointer };
    let (status, message) =
        table.update(&mut state, PointerEvent::Pressed, EXTENT, at(205_000, 23_001));
    assert_eq!(status, Status::Captured);
    assert!(message.is_none());
    assert_eq!(state, PointerState::new());
    let (_, message) = table.update(&mut state, PointerEvent::Pressed, EXTENT, at(100_000, 4_999));
    assert!(message.is_none());
    assert_eq!(state, PointerState::new());
}

#[test]
fn a_press_during_a_drag_changes_nothing() {
    let table = table();
    let mut state = dragging(1, 700);
    let (status, message) =
        table.update(&mut state, PointerEvent::Pressed, EXTENT, at(100_000, 10_000));
    assert_eq!(status, Status::Captured);
    assert!(message.is_none());
    assert_eq!(state, dragging(1, 700));
}

#[test]
fn a_release_ends_the_drag() {
    let table = table();
    let mut state = dragging(4, -300);
    let (status, message) =
        table.update(&mut state, PointerEvent::Released, EXTENT, at(900_000, 900_000));
    assert_eq!(status, Status::Captured);
    assert!(message.is_none());
    assert_eq!(
        state,
        PointerState { pending: None, interaction: Interaction::ResizingHorizontally }
    );
    let (status, message) = table.update(&mut state, PointerEvent::Released, EXTENT, at(0, 0));
    assert_eq!(status, Status::Captured);
    assert!(message.is_none());
    assert_eq!(
        state,
        PointerState { pending: None, interaction: Interaction::ResizingHorizontally }
    );
}

#[test]
fn hovering_only_changes_the_look_of_the_pointer() {
    let table = table();
    let mut state = PointerState::new();
    let (status, message) =
        table.update(&mut state, PointerEvent::Moved { x: 205_000 }, EXTENT, at(205_000, 10_000));
    assert_eq!(status, Status::Captured);
    assert!(message.is_none());
    assert_eq!(
        state,
        PointerState { pending: None, interaction: Interaction::ResizingHorizontally }
    );
    let _ = table.update(&mut state, PointerEvent::Moved { x: 230_000 }, EXTENT, at(230_000, 10_000));
    assert_eq!(state, PointerState { pending: None, interaction: Interaction::Pointer });
    let _ = table.update(&mut state, PointerEvent::Moved { x: 230_000 }, EXTENT, at(230_000, 30_000));
    assert_eq!(state, PointerState::new());
    let _ = table.update(&mut state, PointerEvent::Moved { x: 7_500 }, EXTENT, at(7_500, 10_000));
    assert_eq!(state, PointerState::new());
    let _ = table.update(&mut state, PointerEvent::Moved { x: 7_501 }, EXTENT, at(7_501, 10_000));
    assert_eq!(state, PointerState { pending: None, interaction: Interaction::Pointer });
    let _ = table.update(&mut state, PointerEvent::Moved { x: 802_500 }, EXTENT, at(802_500, 10_000));
    assert_eq!(state, PointerState::new());
    assert_eq!(table.mouse_interaction(&state), Interaction::Idle);
}

#[test]
fn events_without_a_pointer_or_not_of_the_mouse_are_ignored() {
    let table = table();
    let mut state = dragging(2, 0);
    let events = [
        PointerEvent::Pressed,
        PointerEvent::Released,
        PointerEvent::Moved { x: 250_000 },
        PointerEvent::OtherMouse,
        PointerEvent::Other,
    ];
    for event in events {
        let (status, message) = table.update(&mut state, event, EXTENT, None);
        assert_eq!(status, Status::Ignored);
        assert!(message.is_none());
        assert_eq!(state, dragging(2, 0));
    }
    let (status, message) =
        table.update(&mut state, PointerEvent::Other, EXTENT, at(250_000, 10_000));
    assert_eq!(status, Status::Ignored);
    assert!(message.is_none());
    let (status, message) =
        table.update(&mut state, PointerEvent::OtherMouse, EXTENT, at(250_000, 10_000));
    assert_eq!(status, Status::Captured);
    assert!(message.is_none());
    assert_eq!(state, dragging(2, 0));
}

#[test]
fn a_requested_move_is_applied_between_the_neighbours() {
    let mut table = table();
    assert!(table.drag_separator(2, 306_250));
    assert_eq!(table.separators, vec![80_000, 170_000, 306_250, 370_000, 440_000, 510_000]);
    assert!(!table.drag_separator(2, 370_000));
    assert!(!table.drag_separator(2, 170_000));
    assert!(!table.drag_separator(2, 900_000));
    assert!(!table.drag_separator(6, 600_000));
    assert!(!table.drag_separator(0, 0));
    assert!(!table.drag_separator(5, 1_000_000));
    assert_eq!(table.separators, vec![80_000, 170_000, 306_250, 370_000, 440_000, 510_000]);
    assert!(table.drag_separator(0, 1));
    assert!(table.drag_separator(5, 999_999));
    assert_eq!(table.separators, vec![1, 170_000, 306_250, 370_000, 440_000, 999_999]);
}

#[test]
fn text_is_cut_with_two_dots() {
    assert_eq!(fit_text("systemd", 7), "systemd");
    assert_eq!(fit_text("systemd", 8), "systemd");
    assert_eq!(fit_text("systemd", 6), "system..");
    assert_eq!(fit_text("systemd", 0), "..");
    assert_eq!(fit_text("", 0), "");
    assert_eq!(fit_text("héllo wörld", 4), "héll..");
}

#[test]
fn column_capacity_follows_the_separators() {
    let table = table();
    assert_eq!(table.column_capacity(EXTENT, 0), 8);
    assert_eq!(table.column_capacity(EXTENT, 1), 10);
    assert_eq!(table.column_capacity(EXTENT, 2), 8);
    assert_eq!(table.column_capacity(EXTENT, 3), 14);
    assert_eq!(table.column_capacity(EXTENT, 6), 63);
    assert_eq!(table.column_capacity(10_000, 6), 0);
    assert_eq!(table.column_capacity(0, 3), 0);
    assert_eq!(table.column_capacity(160_000, 0), 0);
    assert_eq!(table.column_capacity(235_000, 0), 1);
}

#[test]
fn column_text_starts_right_of_the_edge() {
    let table = table();
    assert_eq!(table.column_text_start(EXTENT, 0), 7_000);
    assert_eq!(table.column_text_start(EXTENT, 3), 207_000);
    assert_eq!(table.column_text_start(EXTENT, 6), 415_000);
}

#[test]
fn visible_rows_leave_the_last_line_free() {
    let mut table = table();
    let list: Vec<ProcessInfo> = (0..10).map(process).collect();
    table.set_data(&list);
    assert_eq!(table.visible_rows(10_000 + 18_000 * 5), 4);
    assert_eq!(table.visible_rows(10_000 + 18_000 * 5 - 1), 3);
    assert_eq!(table.visible_rows(10_000 + 18_000 * 2), 1);
    assert_eq!(table.visible_rows(10_000 + 18_000 * 2 - 1), 0);
    assert_eq!(table.visible_rows(0), 0);
    assert_eq!(table.visible_rows(10_000 + 18_000 * 100), 10);
}

#[test]
fn well_formed_tables_and_states() {
    let mut table = table();
    assert!(table.is_well_formed());
    assert!(TasksListChart::new().is_well_formed());
    table.separators[2] = 170_000;
    assert!(!table.is_well_formed());
    table.separators[2] = 160_000;
    assert!(!table.is_well_formed());
    table.separators = vec![80_000, 170_000, 250_000, 370_000, 440_000];
    assert!(!table.is_well_formed());
    table.separators = vec![0, 170_000, 250_000, 370_000, 440_000, 510_000];
    assert!(!table.is_well_formed());
    table.separators = vec![80_000, 170_000, 250_000, 370_000, 440_000, 1_000_000];
    assert!(!table.is_well_formed());
    table.separators = vec![1, 2, 3, 4, 5, 999_999];
    assert!(table.is_well_formed());
    assert!(PointerState::default().is_well_formed());
    assert!(dragging(5, 0).is_well_formed());
    assert!(!dragging(6, 0).is_well_formed());
    assert_eq!(PointerState::default(), PointerState::new());
}
