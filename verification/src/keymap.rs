//! Key bindings: the global click bindings and the Dashboard's
//! navigation table.
//!
//! Key events are compared the way the terminal backend compares them:
//! an upper-case letter always carries SHIFT, and a letter with SHIFT is
//! the upper-case letter, so `'S'`, `'S'` + SHIFT and `'s'` + SHIFT are
//! the same key, while `'Q'` + SHIFT is not `'q'`.

use vstd::prelude::*;
use crate::app_state::Screen;

verus! {

/// Media keys.
#[derive(Debug, Clone, Copy, PartialEq, Eq, Structural)]
pub enum MediaKeyCode {
    Play,
    Pause,
    PlayPause,
    Reverse,
    Stop,
    FastForward,
    Rewind,
    TrackNext,
    TrackPrevious,
    Record,
    LowerVolume,
    RaiseVolume,
    MuteVolume,
}

/// Modifier keys pressed on their own.
#[derive(Debug, Clone, Copy, PartialEq, Eq, Structural)]
pub enum ModifierKeyCode {
    LeftShift,
    LeftControl,
    LeftAlt,
    LeftSuper,
    LeftHyper,
    LeftMeta,
    RightShift,
    RightControl,
    RightAlt,
    RightSuper,
    RightHyper,
    RightMeta,
    IsoLevel3Shift,
    IsoLevel5Shift,
}

/// The key of a key event.
#[derive(Debug, Clone, Copy, PartialEq, Eq, Structural)]
pub enum KeyCode {
    Backspace,
    Enter,
    Left,
    Right,
    Up,
    Down,
    Home,
    End,
    PageUp,
    PageDown,
    Tab,
    BackTab,
    Delete,
    Insert,
    F(u8),
    Char(char),
    Null,
    Esc,
    CapsLock,
    ScrollLock,
    NumLock,
    PrintScreen,
    Pause,
    Menu,
    KeypadBegin,
    Media(MediaKeyCode),
    Modifier(ModifierKeyCode),
}

/// Modifier flags of a key event, as bits: SHIFT 1, CONTROL 2, ALT 4,
/// SUPER 8, HYPER 16, META 32.
#[derive(Debug, Clone, Copy, PartialEq, Eq)]
pub struct KeyModifiers {
    pub bits: u8,
}

impl KeyModifiers {
    /// No modifier.
    pub fn none() -> (r: KeyModifiers)
        ensures
            r.bits == 0,
    {
        KeyModifiers { bits: 0 }
    }

    /// SHIFT alone.
    pub fn shift() -> (r: KeyModifiers)
        ensures
            r.bits == 1,
    {
        KeyModifiers { bits: 1 }
    }
}

/// Whether a key was pressed, repeated or released.
#[derive(Debug, Clone, Copy, PartialEq, Eq, Structural)]
pub enum KeyEventKind {
    Press,
    Repeat,
    Release,
}

/// Extra state of a key event, as bits: KEYPAD 1, CAPS_LOCK 2,
/// NUM_LOCK 4.
#[derive(Debug, Clone, Copy, PartialEq, Eq)]
pub struct KeyEventState {
    pub bits: u8,
}

/// A key event.
#[derive(Debug, Clone, Copy)]
pub struct KeyEvent {
    pub code: KeyCode,
    pub modifiers: KeyModifiers,
    pub kind: KeyEventKind,
    pub state: KeyEventState,
}

/// `c` is an ASCII upper-case letter.
pub open spec fn is_upper(c: char) -> bool {
    'A' <= c && c <= 'Z'
}

/// ASCII upper case of `c`.
pub open spec fn upper(c: char) -> char {
    if 'a' <= c && c <= 'z' {
        ((c as u32) - 32) as char
    } else {
        c
    }
}

/// The canonical form of an event: SHIFT added to an upper-case letter,
/// and a letter with SHIFT made upper case.
pub open spec fn normalized(e: KeyEvent) -> KeyEvent {
    match e.code {
        KeyCode::Char(c) => if is_upper(c) {
            KeyEvent { modifiers: KeyModifiers { bits: e.modifiers.bits | 1 }, ..e }
        } else if e.modifiers.bits & 1 == 1 {
            KeyEvent { code: KeyCode::Char(upper(c)), ..e }
        } else {
            e
        },
        _ => e,
    }
}

/// Two events are the same key when their canonical forms agree.
pub open spec fn same_key(a: KeyEvent, b: KeyEvent) -> bool {
    normalized(a) == normalized(b)
}

impl KeyEvent {
    /// A press of `code` with `modifiers` and no extra state.
    pub fn new(code: KeyCode, modifiers: KeyModifiers) -> (r: KeyEvent)
        ensures
            r.code == code,
            r.modifiers == modifiers,
            r.kind == KeyEventKind::Press,
            r.state.bits == 0,
    {
        KeyEvent { code, modifiers, kind: KeyEventKind::Press, state: KeyEventState { bits: 0 } }
    }

    /// The canonical form of `self`.
    fn normalize_case(&self) -> (r: KeyEvent)
        ensures
            r == normalized(*self),
    {
        match self.code {
            KeyCode::Char(c) => if 'A' <= c && c <= 'Z' {
                KeyEvent {
                    code: self.code,
                    modifiers: KeyModifiers { bits: self.modifiers.bits | 1 },
                    kind: self.kind,
                    state: self.state,
                }
            } else if self.modifiers.bits & 1 == 1 {
                let u = if 'a' <= c && c <= 'z' {
                    ((c as u8) - 32) as char
                } else {
                    c
                };
                KeyEvent {
                    code: KeyCode::Char(u),
                    modifiers: self.modifiers,
                    kind: self.kind,
                    state: self.state,
                }
            } else {
                *self
            },
            _ => *self,
        }
    }
}

impl PartialEq for KeyEvent {
    fn eq(&self, other: &KeyEvent) -> (r: bool) {
        let a = self.normalize_case();
        let b = other.normalize_case();
        a.code == b.code && a.modifiers.bits == b.modifiers.bits && a.kind == b.kind
            && a.state.bits == b.state.bits
    }
}

impl vstd::std_specs::cmp::PartialEqSpecImpl for KeyEvent {
    open spec fn obeys_eq_spec() -> bool {
        true
    }

    open spec fn eq_spec(&self, other: &KeyEvent) -> bool {
        same_key(*self, *other)
    }
}

impl Eq for KeyEvent {}

/// Whether `a` and `b` are the same key.
pub fn key_matches(a: &KeyEvent, b: &KeyEvent) -> (r: bool)
    ensures
        r == same_key(*a, *b),
{
    let x = a.normalize_case();
    let y = b.normalize_case();
    x.code == y.code && x.modifiers.bits == y.modifiers.bits && x.kind == y.kind
        && x.state.bits == y.state.bits
}

/// The click kinds that gate destructive actions.
#[derive(Debug, Clone, Copy, PartialEq, Eq, Structural)]
pub enum ClickType {
    Single,
    Double,
    Hold,
}

/// One key to click rule.
#[derive(Debug, Clone, Copy, PartialEq, Eq)]
pub struct Binding {
    pub key: KeyEvent,
    pub click: ClickType,
}

/// The click of the first binding for `key`.
pub open spec fn first_click(bs: Seq<Binding>, key: KeyEvent) -> Option<ClickType>
    decreases bs.len(),
{
    if bs.len() == 0 {
        None
    } else if same_key(bs[0].key, key) {
        Some(bs[0].click)
    } else {
        first_click(bs.drop_first(), key)
    }
}

/// A plain press of `c`.
pub open spec fn plain(c: KeyCode) -> KeyEvent {
    KeyEvent {
        code: c,
        modifiers: KeyModifiers { bits: 0 },
        kind: KeyEventKind::Press,
        state: KeyEventState { bits: 0 },
    }
}

/// The global bindings, in order: Enter, Tab, Esc, `?`, `q` and `r`,
/// each a plain single click.
pub open spec fn default_bindings() -> Seq<Binding> {
    seq![
        Binding { key: plain(KeyCode::Enter), click: ClickType::Single },
        Binding { key: plain(KeyCode::Tab), click: ClickType::Single },
        Binding { key: plain(KeyCode::Esc), click: ClickType::Single },
        Binding { key: plain(KeyCode::Char('?')), click: ClickType::Single },
        Binding { key: plain(KeyCode::Char('q')), click: ClickType::Single },
        Binding { key: plain(KeyCode::Char('r')), click: ClickType::Single },
    ]
}

/// The global key to click table.
#[derive(Debug)]
pub struct Keymap {
    bindings: Vec<Binding>,
}

impl View for Keymap {
    type V = Seq<Binding>;

    closed spec fn view(&self) -> Seq<Binding> {
        self.bindings@
    }
}

impl Default for Keymap {
    fn default() -> (r: Keymap)
        ensures
            r@ == Seq::<Binding>::empty(),
    {
        Keymap { bindings: Vec::new() }
    }
}

/// A plain single-click binding of `code`.
fn single(code: KeyCode) -> (r: Binding)
    ensures
        r == (Binding { key: plain(code), click: ClickType::Single }),
{
    Binding { key: KeyEvent::new(code, KeyModifiers::none()), click: ClickType::Single }
}

impl Keymap {
    /// The default keymap.
    pub fn new() -> (r: Keymap)
        ensures
            r@ == default_bindings(),
    {
        let mut bindings: Vec<Binding> = Vec::new();
        bindings.push(single(KeyCode::Enter));
        bindings.push(single(KeyCode::Tab));
        bindings.push(single(KeyCode::Esc));
        bindings.push(single(KeyCode::Char('?')));
        bindings.push(single(KeyCode::Char('q')));
        bindings.push(single(KeyCode::Char('r')));
        let r = Keymap { bindings };
        assert(r@ =~= default_bindings());
        r
    }

    /// The click a key event is bound to, if any.
    pub fn resolve(&self, key: KeyEvent) -> (r: Option<ClickType>)
        ensures
            r == first_click(self@, key),
    {
        let mut i: usize = 0;
        assert(self.bindings@.skip(0) =~= self.bindings@);
        while i < self.bindings.len()
            invariant
                i <= self.bindings.len(),
                first_click(self@, key) == first_click(self.bindings@.skip(i as int), key),
            decreases self.bindings.len() - i,
        {
            assert(self.bindings@.skip(i as int)[0] == self.bindings@[i as int]);
            assert(self.bindings@.skip(i as int).drop_first() =~= self.bindings@.skip(i + 1));
            if key_matches(&self.bindings[i].key, &key) {
                return Some(self.bindings[i].click);
            }
            i = i + 1;
        }
        None
    }
}

/// One key to screen rule of the Dashboard.
#[derive(Debug, Clone, Copy, PartialEq, Eq)]
pub struct NavBinding {
    pub key: KeyEvent,
    pub target: Screen,
}

/// The screen of the first rule for `key`.
pub open spec fn first_target(bs: Seq<NavBinding>, key: KeyEvent) -> Option<Screen>
    decreases bs.len(),
{
    if bs.len() == 0 {
        None
    } else if same_key(bs[0].key, key) {
        Some(bs[0].target)
    } else {
        first_target(bs.drop_first(), key)
    }
}

/// The Dashboard's navigation table: `s` Storage, `a` Apps, `S`
/// Settings, `u` Updates.
pub open spec fn dashboard_nav() -> Seq<NavBinding> {
    seq![
        NavBinding { key: plain(KeyCode::Char('s')), target: Screen::Storage },
        NavBinding { key: plain(KeyCode::Char('a')), target: Screen::Apps },
        NavBinding { key: plain(KeyCode::Char('S')), target: Screen::Settings },
        NavBinding { key: plain(KeyCode::Char('u')), target: Screen::Updates },
    ]
}

impl NavBinding {
    fn new(ch: char, target: Screen) -> (r: NavBinding)
        ensures
            r == (NavBinding { key: plain(KeyCode::Char(ch)), target }),
    {
        NavBinding { key: KeyEvent::new(KeyCode::Char(ch), KeyModifiers::none()), target }
    }
}

/// The Dashboard's key to screen table.
#[derive(Debug)]
pub struct NavKeymap {
    bindings: Vec<NavBinding>,
}

impl View for NavKeymap {
    type V = Seq<NavBinding>;

    closed spec fn view(&self) -> Seq<NavBinding> {
        self.bindings@
    }
}

impl NavKeymap {
    /// A fresh copy of the Dashboard navigation table.
    pub fn from_dashboard() -> (r: NavKeymap)
        ensures
            r@ == dashboard_nav(),
    {
        let mut bindings: Vec<NavBinding> = Vec::new();
        bindings.push(NavBinding::new('s', Screen::Storage));
        bindings.push(NavBinding::new('a', Screen::Apps));
        bindings.push(NavBinding::new('S', Screen::Settings));
        bindings.push(NavBinding::new('u', Screen::Updates));
        let r = NavKeymap { bindings };
        assert(r@ =~= dashboard_nav());
        r
    }

    /// The screen a key opens from the Dashboard, if any.
    pub fn target_for(&self, key: KeyEvent) -> (r: Option<Screen>)
        ensures
            r == first_target(self@, key),
    {
        let mut i: usize = 0;
        assert(self.bindings@.skip(0) =~= self.bindings@);
        while i < self.bindings.len()
            invariant
                i <= self.bindings.len(),
                first_target(self@, key) == first_target(self.bindings@.skip(i as int), key),
            decreases self.bindings.len() - i,
        {
            assert(self.bindings@.skip(i as int)[0] == self.bindings@[i as int]);
            assert(self.bindings@.skip(i as int).drop_first() =~= self.bindings@.skip(i + 1));
            if key_matches(&self.bindings[i].key, &key) {
                return Some(self.bindings[i].target);
            }
            i = i + 1;
        }
        None
    }
}

impl Default for NavKeymap {
    fn default() -> (r: NavKeymap)
        ensures
            r@ == dashboard_nav(),
    {
        Self::from_dashboard()
    }
}

/// The default keymap: a plain press of Enter, Tab, Esc, `?`, `q` or
/// `r` is a single click; upper-case `Q` with SHIFT is not bound.
pub proof fn lemma_default_keymap(key: KeyEvent)
    requires
        key.modifiers.bits == 0,
        key.kind == KeyEventKind::Press,
        key.state.bits == 0,
    ensures
        key.code == KeyCode::Enter ==> first_click(default_bindings(), key) == Some(ClickType::Single),
        key.code == KeyCode::Tab ==> first_click(default_bindings(), key) == Some(ClickType::Single),
        key.code == KeyCode::Esc ==> first_click(default_bindings(), key) == Some(ClickType::Single),
        key.code == KeyCode::Char('?') ==> first_click(default_bindings(), key) == Some(
            ClickType::Single,
        ),
        key.code == KeyCode::Char('q') ==> first_click(default_bindings(), key) == Some(
            ClickType::Single,
        ),
        key.code == KeyCode::Char('r') ==> first_click(default_bindings(), key) == Some(
            ClickType::Single,
        ),
        first_click(
            default_bindings(),
            KeyEvent { code: KeyCode::Char('Q'), modifiers: KeyModifiers { bits: 1 }, ..key },
        ) is None,
{
    reveal_with_fuel(first_click, 7);
    assert(0u8 & 1u8 == 0u8) by (bit_vector);
    assert(1u8 & 1u8 == 1u8) by (bit_vector);
    assert(1u8 | 1u8 == 1u8) by (bit_vector);
    assert(key == plain(key.code));
    let t = default_bindings();
    assert(t.drop_first()[0] == t[1]);
    assert(t.drop_first().drop_first()[0] == t[2]);
    assert(t.drop_first().drop_first().drop_first()[0] == t[3]);
    assert(t.drop_first().drop_first().drop_first().drop_first()[0] == t[4]);
    assert(t.drop_first().drop_first().drop_first().drop_first().drop_first()[0] == t[5]);
    assert(t.drop_first().drop_first().drop_first().drop_first().drop_first().drop_first().len() == 0);
}

} // verus!
