use olc_pixel::error::ErrorKind;
use olc_pixel::host::{check_screen, FrameCounter};
use olc_pixel::keys::{MouseBtn, MouseEvent, MouseState, State};

const IDLE: State = State { is_pressed: false, is_released: false };

#[test]
fn new_mouse_is_idle() {
    let m = MouseState::new();
    assert_eq!((m.mouse_x(), m.mouse_y()), (0, 0));
    assert_eq!(*m.button(MouseBtn::LEFT), IDLE);
    assert_eq!(*m.button(MouseBtn::X2), IDLE);
    assert_eq!(State::default(), IDLE);
}

#[test]
fn motion_sets_position_and_held_buttons() {
    let mut m = MouseState::new();
    m.update(MouseEvent::ButtonUp(MouseBtn::MIDDLE));
    m.update(MouseEvent::Motion { x: 7, y: 9, held: 0b10101 });
    assert_eq!((m.mouse_x(), m.mouse_y()), (7, 9));
    assert_eq!(*m.button(MouseBtn::LEFT), State { is_pressed: true, is_released: false });
    assert_eq!(*m.button(MouseBtn::MIDDLE), IDLE);
    assert_eq!(*m.button(MouseBtn::RIGHT), State { is_pressed: true, is_released: false });
    assert_eq!(*m.button(MouseBtn::X1), IDLE);
    assert_eq!(*m.button(MouseBtn::X2), State { is_pressed: true, is_released: false });
}

#[test]
fn button_down_then_up() {
    let mut m = MouseState::new();
    m.update(MouseEvent::ButtonDown(MouseBtn::RIGHT));
    assert_eq!(*m.button(MouseBtn::RIGHT), State { is_pressed: true, is_released: false });
    assert_eq!(*m.button(MouseBtn::LEFT), IDLE);
    m.update(MouseEvent::ButtonUp(MouseBtn::RIGHT));
    assert_eq!(*m.button(MouseBtn::RIGHT), State { is_pressed: false, is_released: true });
    m.reset();
    assert_eq!(*m.button(MouseBtn::RIGHT), IDLE);
}

#[test]
fn reset_keeps_position() {
    let mut m = MouseState::new();
    m.update(MouseEvent::Motion { x: 3, y: 4, held: 1 });
    m.reset();
    assert_eq!((m.mouse_x(), m.mouse_y()), (3, 4));
    assert_eq!(*m.button(MouseBtn::LEFT), IDLE);
}

#[test]
fn motion_divides_pixel_size() {
    assert_eq!(MouseEvent::motion(17, 9, 2, 4, 4), MouseEvent::Motion { x: 4, y: 2, held: 2 });
    assert_eq!(MouseEvent::motion(-3, 8, 0, 2, 3), MouseEvent::Motion { x: 0, y: 2, held: 0 });
}

#[test]
fn screen_checks() {
    assert!(check_screen(100, 100, 4, 4).is_ok());
    let e = check_screen(0, 100, 4, 4).unwrap_err();
    assert_eq!(e.kind(), ErrorKind::InvalidSize { width: 0, height: 100 });
    assert_eq!(e.msg(), "Invalid screen size: (0, 100)");
    assert_eq!(check_screen(10, 10, 0, 1).unwrap_err().kind(), ErrorKind::InvalidSize { width: 0, height: 1 });
    assert!(check_screen(10, 10, 11, 1).is_err());
    assert!(check_screen(10, 10, 10, 10).is_ok());
}

#[test]
fn frame_counter_reports_each_second() {
    let mut f = FrameCounter::new();
    assert_eq!(f.tick(400_000), None);
    assert_eq!(f.tick(400_000), None);
    assert_eq!(f.tick(200_000), Some(3));
    assert_eq!(f.tick(999_999), None);
    assert_eq!(f.tick(1), Some(2));
    assert_eq!(f.tick(u64::MAX), Some(1));
}
