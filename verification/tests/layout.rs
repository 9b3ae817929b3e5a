use icy::layout::{centered_rect, Area};

#[test]
fn popup_is_centred() {
    let screen = Area { x: 0, y: 0, width: 100, height: 50 };
    assert_eq!(centered_rect(60, 20, screen), Area { x: 20, y: 20, width: 60, height: 10 });
    let screen = Area { x: 10, y: 5, width: 80, height: 40 };
    assert_eq!(centered_rect(50, 50, screen), Area { x: 30, y: 15, width: 40, height: 20 });
    let screen = Area { x: 0, y: 0, width: 30, height: 10 };
    assert_eq!(centered_rect(100, 100, screen), screen);
}
