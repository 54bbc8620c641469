use vstd::prelude::*;
use vstd::string::*;

verus! {

/// Tracks a touch on a card, to tell a tap that previews the card from a tap
/// that plays it. Where the finger went is left to the caller, which reports
/// a drag with `pointer_drag`.
pub struct PreviewGesture {
    /// The pointer that touched a card, and the card's name.
    pub active: Option<(i32, String)>,
    /// The card of the last completed tap, and whether its click is to be
    /// swallowed because the tap showed the preview.
    pub pending_click: Option<(String, bool)>,
}

/// The name of a pending click and whether it is to be swallowed.
pub open spec fn pending_view(g: &PreviewGesture) -> Option<(Seq<char>, bool)> {
    match g.pending_click {
        Some((name, suppress)) => Some((name@, suppress)),
        None => None,
    }
}

pub open spec fn active_view(g: &PreviewGesture) -> Option<(i32, Seq<char>)> {
    match g.active {
        Some((id, name)) => Some((id, name@)),
        None => None,
    }
}

pub open spec fn str_option_view(s: Option<&str>) -> Option<Seq<char>> {
    match s {
        Some(text) => Some(text@),
        None => None,
    }
}

/// Whether a pointer that went down at `(x0, y0)` and is now at `(x, y)` has
/// moved more than ten pixels away, which turns a tap into a drag.
pub fn moved_beyond_tap(x0: i32, y0: i32, x: i32, y: i32) -> (r: bool)
    ensures
        r == ((x - x0) * (x - x0) + (y - y0) * (y - y0) > 100),
{
    let dx: i128 = x as i128 - x0 as i128;
    let dy: i128 = y as i128 - y0 as i128;
    assert(dx * dx <= 0x1_0000_0000_0000_0000 && dx * dx >= 0) by (nonlinear_arith)
        requires
            -0x1_0000_0000 <= dx <= 0x1_0000_0000,
    ;
    assert(dy * dy <= 0x1_0000_0000_0000_0000 && dy * dy >= 0) by (nonlinear_arith)
        requires
            -0x1_0000_0000 <= dy <= 0x1_0000_0000,
    ;
    dx * dx + dy * dy > 100
}

fn same_text(a: &str, b: &str) -> (r: bool)
    ensures
        r == (a@ == b@),
{
    let a = String::from_str(a);
    let b = String::from_str(b);
    a == b
}

impl PreviewGesture {
    /// No touch in progress and no pending click.
    pub fn new() -> (g: PreviewGesture)
        ensures
            active_view(&g) is None,
            pending_view(&g) is None,
    {
        PreviewGesture { active: None, pending_click: None }
    }

    /// A pointer goes down, on a card or elsewhere; any pending click is
    /// forgotten.
    pub fn pointer_down(&mut self, pointer_id: i32, card_name: Option<String>)
        ensures
            pending_view(final(self)) is None,
            active_view(final(self)) == (match card_name {
                Some(name) => Some((pointer_id, name@)),
                None => None,
            }),
    {
        self.pending_click = None;
        self.active = match card_name {
            Some(name) => Some((pointer_id, name)),
            None => None,
        };
    }

    /// The pointer that touched the card moved too far: the touch is a drag
    /// and no longer a tap.
    pub fn pointer_drag(&mut self, pointer_id: i32)
        ensures
            pending_view(final(self)) == pending_view(old(self)),
            active_view(final(self)) == (match active_view(old(self)) {
                Some((id, name)) => if id == pointer_id {
                    None
                } else {
                    Some((id, name))
                },
                None => None,
            }),
    {
        let matches_pointer = match &self.active {
            Some((active_id, _)) => *active_id == pointer_id,
            None => false,
        };
        if matches_pointer {
            self.active = None;
        }
    }

    /// A pointer goes up over the card named `card_name`, if any. A tap
    /// completes when the same pointer that touched a card is lifted over that
    /// card: the answer names the card and whether to show its preview (it is
    /// not the pinned card), and its click is recorded as pending. The touch
    /// in progress ends either way.
    pub fn pointer_up(
        &mut self,
        pointer_id: i32,
        card_name: Option<&str>,
        pinned_card_name: Option<&str>,
    ) -> (tap: Option<(String, bool)>)
        ensures
            active_view(final(self)) is None,
            match active_view(old(self)) {
                Some((id, name)) => if id == pointer_id && str_option_view(card_name) == Some(name) {
                    let show = str_option_view(pinned_card_name) != Some(name);
                    &&& tap matches Some((t, s)) && t@ == name && s == show
                    &&& pending_view(final(self)) == Some((name, show))
                } else {
                    tap is None && pending_view(final(self)) == pending_view(old(self))
                },
                None => tap is None && pending_view(final(self)) == pending_view(old(self)),
            },
    {
        let active = self.active.take();
        match active {
            None => None,
            Some((active_id, touched_name)) => {
                let same_card = match card_name {
                    Some(name) => same_text(name, touched_name.as_str()),
                    None => false,
                };
                if pointer_id != active_id || !same_card {
                    return None;
                }
                let pinned_same = match pinned_card_name {
                    Some(name) => same_text(name, touched_name.as_str()),
                    None => false,
                };
                let show_preview = !pinned_same;
                self.pending_click = Some((touched_name.clone(), show_preview));
                Some((touched_name, show_preview))
            },
        }
    }

    /// A click on the card named `card_name` arrives: answers, for the
    /// pending click of that card, whether to swallow it; the pending click
    /// is forgotten either way.
    pub fn take_click(&mut self, card_name: &str) -> (suppress: Option<bool>)
        ensures
            pending_view(final(self)) is None,
            active_view(final(self)) == active_view(old(self)),
            suppress == (match pending_view(old(self)) {
                Some((name, s)) => if name == card_name@ {
                    Some(s)
                } else {
                    None
                },
                None => None,
            }),
    {
        match self.pending_click.take() {
            Some((pending, suppress)) => if same_text(pending.as_str(), card_name) {
                Some(suppress)
            } else {
                None
            },
            None => None,
        }
    }

    /// The pointer was cancelled: no touch in progress, no pending click.
    pub fn cancel(&mut self)
        ensures
            active_view(final(self)) is None,
            pending_view(final(self)) is None,
    {
        self.active = None;
        self.pending_click = None;
    }
}

/// Whether the click on `card_name` is swallowed, because a tap on that card
/// just showed its preview.
pub fn should_suppress_touch_click(gesture: &mut PreviewGesture, card_name: &str) -> (suppress: bool)
    ensures
        pending_view(final(gesture)) is None,
        active_view(final(gesture)) == active_view(old(gesture)),
        suppress == (match pending_view(old(gesture)) {
            Some((name, s)) => name == card_name@ && s,
            None => false,
        }),
{
    match gesture.take_click(card_name) {
        Some(s) => s,
        None => false,
    }
}

} // verus!
