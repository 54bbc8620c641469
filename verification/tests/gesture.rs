use briscola::gesture::{moved_beyond_tap, should_suppress_touch_click, PreviewGesture};
use briscola::table::should_dismiss_hover_preview;

/// A touch gesture with where it started, as the browser front end keeps it:
/// a move of more than ten pixels from the start turns the tap into a drag.
struct TouchGesture {
    inner: PreviewGesture,
    start: Option<(i32, i32)>,
}

impl TouchGesture {
    fn default() -> Self {
        TouchGesture { inner: PreviewGesture::new(), start: None }
    }

    fn pointer_down(&mut self, pointer_id: i32, x: i32, y: i32, card_name: Option<String>) {
        self.start = card_name.as_ref().map(|_| (x, y));
        self.inner.pointer_down(pointer_id, card_name);
    }

    fn pointer_move(&mut self, pointer_id: i32, x: i32, y: i32) {
        if let Some((start_x, start_y)) = self.start {
            if moved_beyond_tap(start_x, start_y, x, y) {
                self.inner.pointer_drag(pointer_id);
            }
        }
    }

    fn pointer_up(&mut self, pointer_id: i32, card_name: Option<&str>, pinned: Option<&str>) -> Option<(String, bool)> {
        self.inner.pointer_up(pointer_id, card_name, pinned)
    }

    fn take_click(&mut self, card_name: &str) -> Option<bool> {
        self.inner.take_click(card_name)
    }

    fn cancel(&mut self) {
        self.inner.cancel();
    }
}

#[test]
fn first_touch_tap_previews_and_suppresses_click() {
    let mut gesture = TouchGesture::default();
    gesture.pointer_down(7, 40, 80, Some("Ace of Cups".to_string()));

    let (card_name, show_preview) = gesture
        .pointer_up(7, Some("Ace of Cups"), None)
        .expect("matching pointer-up should complete the tap");
    assert!(show_preview);
    assert_eq!(card_name, "Ace of Cups");
    assert!(should_suppress_touch_click(&mut gesture.inner, "Ace of Cups"));
}

#[test]
fn second_touch_tap_plays_and_does_not_suppress_click() {
    let mut gesture = TouchGesture::default();
    let mut pinned_card = None;
    gesture.pointer_down(3, 10, 20, Some("Three of Swords".to_string()));
    let (card_name, show_preview) = gesture
        .pointer_up(3, Some("Three of Swords"), pinned_card.as_deref())
        .expect("first matching tap should complete");
    assert!(show_preview);
    pinned_card = Some(card_name);
    assert!(should_suppress_touch_click(&mut gesture.inner, "Three of Swords"));

    gesture.pointer_down(4, 10, 20, Some("Three of Swords".to_string()));
    let (card_name, show_preview) = gesture
        .pointer_up(4, Some("Three of Swords"), pinned_card.as_deref())
        .expect("second matching tap should complete");
    assert!(!show_preview);
    assert_eq!(card_name, "Three of Swords");
    assert!(!should_suppress_touch_click(&mut gesture.inner, "Three of Swords"));
}

#[test]
fn touch_drag_cancels_preview_tap() {
    let mut gesture = TouchGesture::default();
    gesture.pointer_down(1, 20, 30, Some("King of Coins".to_string()));
    gesture.pointer_move(1, 20, 42);

    assert_eq!(gesture.pointer_up(1, Some("King of Coins"), None), None);
    assert_eq!(gesture.take_click("King of Coins"), None);
}

#[test]
fn touch_release_on_different_card_does_not_preview_or_suppress() {
    let mut gesture = TouchGesture::default();
    gesture.pointer_down(2, 20, 30, Some("King of Coins".to_string()));

    assert_eq!(gesture.pointer_up(2, Some("Four of Cups"), None), None);
    assert_eq!(gesture.take_click("Four of Cups"), None);
}

#[test]
fn touch_release_outside_a_card_clears_the_active_gesture() {
    let mut gesture = TouchGesture::default();
    gesture.pointer_down(9, 20, 30, Some("King of Coins".to_string()));

    assert_eq!(gesture.pointer_up(9, None, None), None);
    assert_eq!(gesture.pointer_up(9, Some("King of Coins"), None), None);
    assert_eq!(gesture.take_click("King of Coins"), None);
}

#[test]
fn pointer_cancel_clears_active_and_pending_taps() {
    let mut gesture = TouchGesture::default();
    gesture.pointer_down(6, 12, 18, Some("Seven of Swords".to_string()));
    gesture.cancel();
    assert_eq!(gesture.pointer_up(6, Some("Seven of Swords"), None), None);

    gesture.pointer_down(8, 12, 18, Some("Seven of Swords".to_string()));
    assert!(gesture.pointer_up(8, Some("Seven of Swords"), None).is_some());
    gesture.cancel();
    assert!(!should_suppress_touch_click(&mut gesture.inner, "Seven of Swords"));
}

#[test]
fn pending_tap_does_not_suppress_a_different_card_click() {
    let mut gesture = TouchGesture::default();
    gesture.pointer_down(5, 12, 18, Some("Seven of Swords".to_string()));
    assert!(gesture.pointer_up(5, Some("Seven of Swords"), None).is_some());

    assert!(!should_suppress_touch_click(&mut gesture.inner, "Four of Cups"));
    assert!(!should_suppress_touch_click(&mut gesture.inner, "Seven of Swords"));
}

#[test]
fn hover_preview_dismisses_on_exit_but_survives_internal_and_pinned_transitions() {
    assert!(should_dismiss_hover_preview(true, true, false));
    assert!(!should_dismiss_hover_preview(true, false, false));
    assert!(!should_dismiss_hover_preview(true, true, true));
    assert!(!should_dismiss_hover_preview(false, true, false));
}

#[test]
fn other_pointer_does_not_complete_or_drag_the_tap() {
    let mut gesture = PreviewGesture::new();
    gesture.pointer_down(1, Some("Ace of Cups".to_string()));
    gesture.pointer_drag(2);
    assert_eq!(gesture.pointer_up(2, Some("Ace of Cups"), None), None);
    gesture.pointer_down(1, Some("Ace of Cups".to_string()));
    gesture.pointer_drag(1);
    assert_eq!(gesture.pointer_up(1, Some("Ace of Cups"), None), None);
}

#[test]
fn moves_beyond_ten_pixels_become_drags() {
    assert!(!moved_beyond_tap(20, 30, 20, 40));
    assert!(moved_beyond_tap(20, 30, 20, 41));
    assert!(!moved_beyond_tap(0, 0, 6, 8));
    assert!(moved_beyond_tap(0, 0, 7, 8));
    assert!(moved_beyond_tap(i32::MIN, i32::MIN, i32::MAX, i32::MAX));
    assert!(!moved_beyond_tap(-5, -5, -5, -5));
}
