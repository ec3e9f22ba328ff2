use vstd::prelude::*;
use crate::image_data::Size;
use crate::viewport::{scrolled, zoomed, Viewport};

verus! {

/// The editing tool the user selected.
#[derive(Clone, Copy, Debug, PartialEq, Eq, Structural)]
pub enum Tool {
    Crop,
    Exif,
}

/// Pixel margins cut off each image edge by the crop tool.
#[derive(Clone, Copy, Debug)]
pub struct CropState {
    pub left: u32,
    pub right: u32,
    pub top: u32,
    pub bottom: u32,
}

impl Default for CropState {
    /// All margins start at zero: nothing cropped.
    fn default() -> (s: Self)
        ensures
            s.left == 0,
            s.right == 0,
            s.top == 0,
            s.bottom == 0,
    {
        Self { left: 0, right: 0, top: 0, bottom: 0 }
    }
}

/// Which panel keyboard input currently addresses.
#[derive(Clone, Copy, Debug, PartialEq, Eq, Structural)]
pub enum ActiveWidget {
    Main,
    Tools,
    RightToolbar,
}

/// The interface's input mode.
#[derive(Clone, Copy, Debug, PartialEq, Eq, Structural)]
pub enum AppMode {
    Normal,
    EditingCropValue,
    ExifView,
}

/// A pressed key, decoded from the terminal's input events by the
/// surrounding application.
#[derive(Clone, Copy, Debug, PartialEq, Eq, Structural)]
pub enum Key {
    Up,
    Down,
    Left,
    Right,
    PageUp,
    PageDown,
    Esc,
    Enter,
    Tab,
    Backspace,
    Char(char),
    Other,
}

/// Selection state over a list of `len` entries, wrapping at both ends.
#[derive(Clone, Copy, Debug)]
pub struct ListNav {
    pub selected: Option<usize>,
    pub len: usize,
}

/// The selection after one step down: the first entry when nothing is
/// selected, back to the top past the last entry.
pub open spec fn nav_next(n: ListNav) -> ListNav {
    if n.len == 0 {
        (ListNav { selected: None, ..n })
    } else {
        match n.selected {
            Some(i) => if i + 1 >= n.len {
                (ListNav { selected: Some(0), ..n })
            } else {
                (ListNav { selected: Some((i + 1) as usize), ..n })
            },
            None => (ListNav { selected: Some(0), ..n }),
        }
    }
}

/// The selection after one step up: the first entry when nothing is
/// selected, around to the bottom from the first entry.
pub open spec fn nav_previous(n: ListNav) -> ListNav {
    if n.len == 0 {
        (ListNav { selected: None, ..n })
    } else {
        match n.selected {
            Some(i) => if i == 0 {
                (ListNav { selected: Some((n.len - 1) as usize), ..n })
            } else {
                (ListNav { selected: Some((i - 1) as usize), ..n })
            },
            None => (ListNav { selected: Some(0), ..n }),
        }
    }
}

impl ListNav {
    /// A list of `len` entries with nothing selected.
    pub fn new(len: usize) -> (n: ListNav)
        ensures
            n.selected is None,
            n.len == len,
    {
        ListNav { selected: None, len }
    }

    /// Steps the selection down, wrapping to the top past the last entry.
    pub fn next(&mut self)
        ensures
            *final(self) == nav_next(*old(self)),
    {
        if self.len == 0 {
            self.selected = None;
            return ;
        }
        self.selected = match self.selected {
            Some(i) => if i >= self.len - 1 {
                Some(0)
            } else {
                Some(i + 1)
            },
            None => Some(0),
        };
    }

    /// Steps the selection up, wrapping to the bottom from the first entry.
    pub fn previous(&mut self)
        ensures
            *final(self) == nav_previous(*old(self)),
    {
        if self.len == 0 {
            self.selected = None;
            return ;
        }
        self.selected = match self.selected {
            Some(i) => if i == 0 {
                Some(self.len - 1)
            } else {
                Some(i - 1)
            },
            None => Some(0),
        };
    }

    /// Clears the selection.
    pub fn unselect(&mut self)
        ensures
            final(self).selected is None,
            final(self).len == old(self).len,
    {
        self.selected = None;
    }

    /// Sets the selection outright.
    pub fn select(&mut self, sel: Option<usize>)
        ensures
            final(self).selected == sel,
            final(self).len == old(self).len,
    {
        self.selected = sel;
    }
}

/// Whether `c` is a decimal digit.
pub open spec fn is_digit_char(c: char) -> bool {
    48 <= c as u32 <= 57
}

/// The number the digit string stands for, most significant digit first.
pub open spec fn digits_val(s: Seq<char>) -> int
    decreases s.len(),
{
    if s.len() == 0 {
        0
    } else {
        digits_val(s.drop_last()) * 10 + (s.last() as u32 - 48)
    }
}

/// What parsing the input as an unsigned 32-bit decimal yields: a value for
/// a non-empty all-digit string that fits, nothing otherwise.
pub open spec fn parse_u32_spec(s: Seq<char>) -> Option<u32> {
    if s.len() == 0 || (exists|i: int| 0 <= i < s.len() && !is_digit_char(s[i])) {
        None
    } else if digits_val(s) > u32::MAX {
        None
    } else {
        Some(digits_val(s) as u32)
    }
}

/// An all-digit string's value never shrinks as digits are appended.
proof fn lemma_digits_val_grows(s: Seq<char>, i: int)
    requires
        0 <= i <= s.len(),
        forall|j: int| 0 <= j < s.len() ==> is_digit_char(#[trigger] s[j]),
    ensures
        digits_val(s) >= digits_val(s.subrange(0, i)),
        digits_val(s) >= 0,
    decreases s.len() - i,
{
    if i == s.len() {
        assert(s.subrange(0, i) =~= s);
        lemma_digits_val_nonneg(s);
    } else {
        lemma_digits_val_grows(s, i + 1);
        let t = s.subrange(0, i + 1);
        assert(t.drop_last() =~= s.subrange(0, i));
        lemma_digits_val_nonneg(s.subrange(0, i));
        assert(digits_val(t) == digits_val(s.subrange(0, i)) * 10 + (s[i] as u32 - 48));
        assert(digits_val(s.subrange(0, i)) * 10 >= digits_val(s.subrange(0, i))) by (
        nonlinear_arith)
            requires
                digits_val(s.subrange(0, i)) >= 0,
        ;
    }
}

/// An all-digit string's value is never negative.
proof fn lemma_digits_val_nonneg(s: Seq<char>)
    requires
        forall|j: int| 0 <= j < s.len() ==> is_digit_char(#[trigger] s[j]),
    ensures
        digits_val(s) >= 0,
    decreases s.len(),
{
    if s.len() > 0 {
        lemma_digits_val_nonneg(s.drop_last());
        assert(digits_val(s.drop_last()) * 10 >= 0) by (nonlinear_arith)
            requires
                digits_val(s.drop_last()) >= 0,
        ;
    }
}

/// Parses the characters as an unsigned 32-bit decimal number: fails on an
/// empty string, on any non-digit, and on a value above `u32::MAX`.
pub fn parse_u32_digits(s: &Vec<char>) -> (r: Option<u32>)
    ensures
        r == parse_u32_spec(s@),
{
    if s.len() == 0 {
        return None;
    }
    let mut acc: u64 = 0;
    let mut i: usize = 0;
    while i < s.len()
        invariant
            0 <= i <= s@.len(),
            forall|j: int| 0 <= j < i ==> is_digit_char(#[trigger] s@[j]),
            acc == digits_val(s@.subrange(0, i as int)),
            acc <= u32::MAX,
        decreases s@.len() - i,
    {
        let c = s[i];
        let cv = c as u32;
        if cv < 48 || cv > 57 {
            assert(!is_digit_char(s@[i as int]));
            return None;
        }
        let d = cv - 48;
        proof {
            assert(s@[i as int] == c);
            assert(is_digit_char(c));
            assert(c as u32 - 48 == d as int);
        }
        acc = acc * 10 + d as u64;
        proof {
            let t = s@.subrange(0, i + 1);
            assert(t.drop_last() =~= s@.subrange(0, i as int));
            assert(t.last() == s@[i as int]);
        }
        i = i + 1;
        if acc > u32::MAX as u64 {
            proof {
                if forall|j: int| 0 <= j < s@.len() ==> is_digit_char(#[trigger] s@[j]) {
                    lemma_digits_val_grows(s@, i as int);
                }
            }
            return None;
        }
    }
    proof {
        assert(s@.subrange(0, s@.len() as int) =~= s@);
    }
    Some(acc as u32)
}

/// The crop state with the margin at `idx` (left, right, top, bottom, in
/// that order) replaced; any other index changes nothing.
pub open spec fn crop_set_spec(c: CropState, idx: int, value: u32) -> CropState {
    if idx == 0 {
        (CropState { left: value, ..c })
    } else if idx == 1 {
        (CropState { right: value, ..c })
    } else if idx == 2 {
        (CropState { top: value, ..c })
    } else if idx == 3 {
        (CropState { bottom: value, ..c })
    } else {
        c
    }
}

/// Number of entries in the crop options list: the four margins and the
/// crop-from-viewport action.
pub const CROP_OPTION_COUNT: usize = 5;

/// Number of crop options that carry an editable margin value.
pub const CROP_VALUE_COUNT: usize = 4;

/// Columns panned per arrow key press, before zoom scaling.
pub const PAN_AMOUNT_CHARACTERS: u32 = 10;

/// Zoom-out multiplier per key press, in thousandths.
pub const ZOOM_OUT_FACTOR_MILLI: u32 = 1200;

/// Zoom-in multiplier per key press, in thousandths: the inverse of the
/// zoom-out step, truncated.
pub const ZOOM_IN_FACTOR_MILLI: u32 = 833;

/// The interface state the keyboard drives: the viewport, the chosen tool
/// and panel, the crop margins being edited, and the metadata list
/// selection. The surrounding application owns everything else (the image,
/// input timing, the drawing).
#[derive(Clone, Debug)]
pub struct AppState {
    /// Pan-and-zoom state over the source image.
    pub viewport: Viewport,
    /// The currently selected tool.
    pub selected_tool: Option<Tool>,
    /// The currently active widget.
    pub active_widget: ActiveWidget,
    /// The state of the crop tool.
    pub crop_state: CropState,
    /// The current application mode.
    pub mode: AppMode,
    /// The index of the selected crop option.
    pub selected_crop_option_index: usize,
    /// The digits typed so far for a crop margin value.
    pub crop_input: Vec<char>,
    /// Selection over the metadata list, when the image carries metadata.
    pub exif_view: Option<ListNav>,
    /// Whether to show the right toolbar.
    pub show_right_toolbar: bool,
}

/// The state machine's mathematical view of the interface state.
pub struct StateModel {
    pub viewport: Viewport,
    pub selected_tool: Option<Tool>,
    pub active_widget: ActiveWidget,
    pub crop_state: CropState,
    pub mode: AppMode,
    pub selected_crop_option_index: int,
    pub crop_input: Seq<char>,
    pub exif_view: Option<ListNav>,
    pub show_right_toolbar: bool,
}

impl AppState {
    /// The interface state as the transition functions see it.
    pub open spec fn model(self) -> StateModel {
        StateModel {
            viewport: self.viewport,
            selected_tool: self.selected_tool,
            active_widget: self.active_widget,
            crop_state: self.crop_state,
            mode: self.mode,
            selected_crop_option_index: self.selected_crop_option_index as int,
            crop_input: self.crop_input@,
            exif_view: self.exif_view,
            show_right_toolbar: self.show_right_toolbar,
        }
    }

    /// A fresh session over the given viewport: main widget, normal mode, no
    /// tool, nothing cropped, no digits typed, no metadata list yet.
    pub fn new(viewport: Viewport) -> (s: AppState)
        ensures
            s.model() == (StateModel {
                viewport,
                selected_tool: None,
                active_widget: ActiveWidget::Main,
                crop_state: CropState { left: 0, right: 0, top: 0, bottom: 0 },
                mode: AppMode::Normal,
                selected_crop_option_index: 0,
                crop_input: Seq::empty(),
                exif_view: None,
                show_right_toolbar: true,
            }),
            s.model().wf(),
    {
        let s = AppState {
            viewport,
            selected_tool: None,
            active_widget: ActiveWidget::Main,
            crop_state: CropState::default(),
            mode: AppMode::Normal,
            selected_crop_option_index: 0,
            crop_input: Vec::new(),
            exif_view: None,
            show_right_toolbar: true,
        };
        proof {
            assert(s.crop_input@ =~= Seq::<char>::empty());
        }
        s
    }
}

impl StateModel {
    /// The selected crop option stays inside the options list.
    pub open spec fn wf(self) -> bool {
        0 <= self.selected_crop_option_index < CROP_OPTION_COUNT
    }
}

/// What one key does to the crop tool: digits and deletions edit the pending
/// margin value, enter commits it, escape abandons it; outside the editor,
/// tab cycles through the options and enter opens the editor on a margin.
pub open spec fn crop_transition(s: StateModel, key: Key) -> StateModel {
    match s.mode {
        AppMode::EditingCropValue => match key {
            Key::Char(c) => if is_digit_char(c) {
                (StateModel { crop_input: s.crop_input.push(c), ..s })
            } else {
                s
            },
            Key::Backspace => if s.crop_input.len() == 0 {
                s
            } else {
                (StateModel { crop_input: s.crop_input.drop_last(), ..s })
            },
            Key::Enter => {
                let committed = match parse_u32_spec(s.crop_input) {
                    Some(value) => (StateModel {
                        crop_state: crop_set_spec(
                            s.crop_state,
                            s.selected_crop_option_index,
                            value,
                        ),
                        ..s
                    }),
                    None => s,
                };
                (StateModel { crop_input: Seq::empty(), mode: AppMode::Normal, ..committed })
            },
            Key::Esc => (StateModel { crop_input: Seq::empty(), mode: AppMode::Normal, ..s }),
            _ => s,
        },
        AppMode::Normal => match key {
            Key::Tab => (StateModel {
                selected_crop_option_index: (s.selected_crop_option_index + 1)
                    % CROP_OPTION_COUNT as int,
                ..s
            }),
            Key::Enter => if s.selected_crop_option_index < CROP_VALUE_COUNT {
                (StateModel { mode: AppMode::EditingCropValue, ..s })
            } else {
                s
            },
            _ => s,
        },
        AppMode::ExifView => s,
    }
}

/// Routes one key press to the crop tool.
pub fn handle_crop_events(key: Key, app: &mut AppState)
    requires
        old(app).model().wf(),
    ensures
        final(app).model() == crop_transition(old(app).model(), key),
        final(app).model().wf(),
{
    match app.mode {
        AppMode::EditingCropValue => {
            match key {
                Key::Char(c) => {
                    let cv = c as u32;
                    if 48 <= cv && cv <= 57 {
                        app.crop_input.push(c);
                    }
                },
                Key::Backspace => {
                    let _dropped = app.crop_input.pop();
                },
                Key::Enter => {
                    match parse_u32_digits(&app.crop_input) {
                        Some(value) => {
                            if app.selected_crop_option_index == 0 {
                                app.crop_state.left = value;
                            } else if app.selected_crop_option_index == 1 {
                                app.crop_state.right = value;
                            } else if app.selected_crop_option_index == 2 {
                                app.crop_state.top = value;
                            } else if app.selected_crop_option_index == 3 {
                                app.crop_state.bottom = value;
                            }
                        },
                        None => {},
                    }
                    app.crop_input.clear();
                    app.mode = AppMode::Normal;
                },
                Key::Esc => {
                    app.crop_input.clear();
                    app.mode = AppMode::Normal;
                },
                _ => {},
            }
        },
        AppMode::Normal => {
            match key {
                Key::Tab => {
                    app.selected_crop_option_index = (app.selected_crop_option_index + 1)
                        % CROP_OPTION_COUNT;
                },
                Key::Enter => {
                    if app.selected_crop_option_index < CROP_VALUE_COUNT {
                        app.mode = AppMode::EditingCropValue;
                    }
                },
                _ => {},
            }
        },
        AppMode::ExifView => {},
    }
}

/// Source pixels one arrow press pans: the per-press column count scaled by
/// the zoom, rounded to the nearest pixel.
pub open spec fn pan_amount_spec(z: int) -> int {
    (PAN_AMOUNT_CHARACTERS * z + 500) / 1000
}

/// What one key does to the whole interface: the metadata list scrolls in
/// metadata view; the crop editor consumes keys while a margin is edited;
/// otherwise digits pick tools, escape drops them, and with no tool armed
/// the arrows pan and the page keys zoom the viewport.
pub open spec fn key_transition(s: StateModel, key: Key, grid: Size) -> StateModel {
    match s.mode {
        AppMode::ExifView => match key {
            Key::Up => (StateModel {
                exif_view: match s.exif_view {
                    Some(n) => Some(nav_previous(n)),
                    None => None,
                },
                ..s
            }),
            Key::Down => (StateModel {
                exif_view: match s.exif_view {
                    Some(n) => Some(nav_next(n)),
                    None => None,
                },
                ..s
            }),
            Key::Esc => (StateModel { mode: AppMode::Normal, active_widget: ActiveWidget::Main, ..s }),
            _ => s,
        },
        AppMode::EditingCropValue => crop_transition(s, key),
        AppMode::Normal => match key {
            Key::Char(c) => if c == 'q' {
                s  // quitting is the surrounding loop's business
            } else if c == '1' {
                (StateModel {
                    selected_tool: Some(Tool::Crop),
                    active_widget: ActiveWidget::RightToolbar,
                    ..s
                })
            } else if c == '2' {
                (StateModel {
                    selected_tool: Some(Tool::Exif),
                    mode: AppMode::ExifView,
                    active_widget: ActiveWidget::RightToolbar,
                    exif_view: match s.exif_view {
                        Some(n) => Some(ListNav { selected: Some(0), ..n }),
                        None => None,
                    },
                    ..s
                })
            } else if s.selected_tool == Some(Tool::Crop) {
                crop_transition(s, key)
            } else {
                s
            },
            Key::Esc => (StateModel { selected_tool: None, active_widget: ActiveWidget::Main, ..s }),
            _ => if s.selected_tool == Some(Tool::Crop) {
                crop_transition(s, key)
            } else if s.active_widget == ActiveWidget::Main {
                let pan = pan_amount_spec(s.viewport.zoom_milli as int);
                match key {
                    Key::Up => (StateModel { viewport: scrolled(s.viewport, 0, -pan, grid), ..s }),
                    Key::Down => (StateModel { viewport: scrolled(s.viewport, 0, pan, grid), ..s }),
                    Key::Left => (StateModel { viewport: scrolled(s.viewport, -pan, 0, grid), ..s }),
                    Key::Right => (StateModel { viewport: scrolled(s.viewport, pan, 0, grid), ..s }),
                    Key::PageUp => (StateModel {
                        viewport: zoomed(s.viewport, ZOOM_IN_FACTOR_MILLI as int, grid),
                        ..s
                    }),
                    Key::PageDown => (StateModel {
                        viewport: zoomed(s.viewport, ZOOM_OUT_FACTOR_MILLI as int, grid),
                        ..s
                    }),
                    _ => s,
                }
            } else {
                s
            },
        },
    }
}

/// Routes one key press through the interface state machine: list scrolling
/// in metadata view, margin editing under the crop tool, tool selection, and
/// viewport panning and zooming.
pub fn handle_key_press(app: &mut AppState, key: Key, grid: Size)
    requires
        old(app).model().wf(),
    ensures
        final(app).model() == key_transition(old(app).model(), key, grid),
        final(app).model().wf(),
{
    let pan_u: u64 = ((PAN_AMOUNT_CHARACTERS as u64) * (app.viewport.zoom_milli as u64) + 500)
        / 1000;
    let pan: i32 = pan_u as i32;
    match app.mode {
        AppMode::ExifView => {
            match key {
                Key::Up => {
                    match app.exif_view {
                        Some(nav0) => {
                            let mut nav = nav0;
                            nav.previous();
                            app.exif_view = Some(nav);
                        },
                        None => {},
                    }
                },
                Key::Down => {
                    match app.exif_view {
                        Some(nav0) => {
                            let mut nav = nav0;
                            nav.next();
                            app.exif_view = Some(nav);
                        },
                        None => {},
                    }
                },
                Key::Esc => {
                    app.mode = AppMode::Normal;
                    app.active_widget = ActiveWidget::Main;
                },
                _ => {},
            }
        },
        AppMode::EditingCropValue => {
            handle_crop_events(key, app);
        },
        AppMode::Normal => {
            match key {
                Key::Char(c) => {
                    if c == 'q' {
                        // quitting is decided by the surrounding loop
                    } else if c == '1' {
                        app.selected_tool = Some(Tool::Crop);
                        app.active_widget = ActiveWidget::RightToolbar;
                    } else if c == '2' {
                        app.selected_tool = Some(Tool::Exif);
                        app.mode = AppMode::ExifView;
                        app.active_widget = ActiveWidget::RightToolbar;
                        match app.exif_view {
                            Some(nav0) => {
                                let mut nav = nav0;
                                nav.select(Some(0));
                                app.exif_view = Some(nav);
                            },
                            None => {},
                        }
                    } else {
                        if let Some(Tool::Crop) = app.selected_tool {
                            handle_crop_events(key, app);
                        }
                    }
                },
                Key::Esc => {
                    app.selected_tool = None;
                    app.active_widget = ActiveWidget::Main;
                },
                _ => {
                    if let Some(Tool::Crop) = app.selected_tool {
                        handle_crop_events(key, app);
                    } else {
                        match app.active_widget {
                            ActiveWidget::Main => {
                                match key {
                                    Key::Up => app.viewport.scroll(0, -pan, grid),
                                    Key::Down => app.viewport.scroll(0, pan, grid),
                                    Key::Left => app.viewport.scroll(-pan, 0, grid),
                                    Key::Right => app.viewport.scroll(pan, 0, grid),
                                    Key::PageUp => app.viewport.zoom(ZOOM_IN_FACTOR_MILLI, grid),
                                    Key::PageDown => app.viewport.zoom(
                                        ZOOM_OUT_FACTOR_MILLI,
                                        grid,
                                    ),
                                    _ => {},
                                }
                            },
                            _ => {},
                        }
                    }
                },
            }
        },
    }
}

/// The margin value the crop option at `index` shows, if that option carries
/// one.
pub fn crop_value_at(c: &CropState, index: usize) -> (r: Option<u32>)
    ensures
        index == 0 ==> r == Some(c.left),
        index == 1 ==> r == Some(c.right),
        index == 2 ==> r == Some(c.top),
        index == 3 ==> r == Some(c.bottom),
        index >= 4 ==> r is None,
{
    if index == 0 {
        Some(c.left)
    } else if index == 1 {
        Some(c.right)
    } else if index == 2 {
        Some(c.top)
    } else if index == 3 {
        Some(c.bottom)
    } else {
        None
    }
}

} // verus!
