use simplestt::overlay::{
    idle_palette, make_colorref, menu_command, overlay_origin, overlay_size, MenuCommand,
    OverlayInteraction, OverlayState, Point,
};

#[test]
fn colorref_packs_and_clamps() {
    assert_eq!(make_colorref(255, 0, 0), 0x0000FF);
    assert_eq!(make_colorref(0, 255, 0), 0x00FF00);
    assert_eq!(make_colorref(0, 0, 255), 0xFF0000);
    assert_eq!(make_colorref(300, -5, 128), 0x8000FF);
}

#[test]
fn idle_colours() {
    assert_eq!(idle_palette(false), (make_colorref(55, 55, 63), make_colorref(75, 75, 80)));
    assert_eq!(idle_palette(true), (make_colorref(85, 85, 93), make_colorref(110, 110, 115)));
}

#[test]
fn geometry() {
    assert_eq!(overlay_size(0), 48);
    assert_eq!(overlay_size(64), 64);
    assert_eq!(overlay_origin(1920, 48), (1852, 20));
}

#[test]
fn toggling_twice_restores() {
    let s = OverlayState::Idle;
    assert_eq!(s.toggled(), OverlayState::Recording);
    assert_eq!(s.toggled().toggled(), s);
    assert!(OverlayState::Recording.is_recording());
    assert!(!OverlayState::Idle.is_recording());
}

#[test]
fn click_toggles_drag_does_not() {
    let mut o = OverlayInteraction::new();
    o.press(Point { x: 100, y: 100 }, Point { x: 90, y: 95 });
    assert!(o.dragging);
    assert!(o.release(Point { x: 103, y: 96 }));
    assert_eq!(o.state, OverlayState::Recording);
    assert!(!o.dragging);
    o.press(Point { x: 100, y: 100 }, Point { x: 90, y: 95 });
    assert!(!o.release(Point { x: 105, y: 100 }));
    assert_eq!(o.state, OverlayState::Recording);
}

#[test]
fn dragging_moves_the_window_by_the_grab_point() {
    let mut o = OverlayInteraction::new();
    assert_eq!(o.mouse_move(Point { x: 5, y: 5 }), None);
    assert!(o.hover);
    o.press(Point { x: 100, y: 100 }, Point { x: 90, y: 95 });
    assert_eq!(o.mouse_move(Point { x: 200, y: 300 }), Some(Point { x: 190, y: 295 }));
    assert_eq!(o.toggle(), OverlayState::Recording);
}

#[test]
fn menu_commands() {
    assert_eq!(menu_command(1002), MenuCommand::Quit);
    assert_eq!(menu_command(1001), MenuCommand::Settings);
    assert_eq!(menu_command(0x1_0000 + 1002), MenuCommand::Quit);
    assert_eq!(menu_command(7), MenuCommand::Ignored);
}
