//! Keyboard and mouse events, as far as the picker tells them apart.
use vstd::prelude::*;

verus! {

/// The key that was pressed.
#[derive(Clone, Copy, Debug, PartialEq, Eq, Structural)]
pub enum KeyCode {
    Char(char),
    Enter,
    Esc,
    Tab,
    BackTab,
    Backspace,
    Up,
    Down,
    Left,
    Right,
    PageUp,
    PageDown,
    F(u8),
    Other,
}

/// The modifiers held down with a key or a mouse button.
#[derive(Clone, Copy, Debug, PartialEq, Eq, Structural)]
pub struct Modifiers {
    pub control: bool,
    pub alt: bool,
    pub shift: bool,
}

/// A key going down or, where the terminal reports it, up again.
#[derive(Clone, Copy, Debug, PartialEq, Eq, Structural)]
pub struct KeyEvent {
    pub code: KeyCode,
    pub modifiers: Modifiers,
    pub release: bool,
}

#[derive(Clone, Copy, Debug, PartialEq, Eq, Structural)]
pub enum MouseButton {
    Left,
    Right,
    Middle,
}

/// What the mouse did.
#[derive(Clone, Copy, Debug, PartialEq, Eq, Structural)]
pub enum MouseKind {
    Down(MouseButton),
    Up(MouseButton),
    ScrollUp,
    ScrollDown,
    Other,
}

#[derive(Clone, Copy, Debug, PartialEq, Eq, Structural)]
pub struct MouseEvent {
    pub kind: MouseKind,
    pub column: u16,
    pub row: u16,
    pub modifiers: Modifiers,
}

impl MouseEvent {
    /// A button going down.
    pub open spec fn pressed(self) -> bool {
        self.kind is Down
    }

    /// A button going down.
    pub fn is_press(self) -> (yes: bool)
        ensures
            yes == self.pressed(),
    {
        matches!(self.kind, MouseKind::Down(_))
    }
}

impl Modifiers {
    /// No modifier.
    pub open spec fn bare() -> Modifiers {
        Modifiers { control: false, alt: false, shift: false }
    }

    /// No modifier.
    pub fn none() -> (modifiers: Modifiers)
        ensures
            modifiers == Modifiers::bare(),
    {
        Modifiers { control: false, alt: false, shift: false }
    }
}

impl KeyEvent {
    /// The press of a key with the given modifiers.
    pub open spec fn press(code: KeyCode, modifiers: Modifiers) -> KeyEvent {
        KeyEvent { code, modifiers, release: false }
    }

    /// The press of a key with the given modifiers.
    pub fn new(code: KeyCode, modifiers: Modifiers) -> (key: KeyEvent)
        ensures
            key == KeyEvent::press(code, modifiers),
    {
        KeyEvent { code, modifiers, release: false }
    }

    /// Whether the key is text being typed rather than a command: neither
    /// Control nor Alt is held.
    pub open spec fn types(self) -> bool {
        !self.modifiers.control && !self.modifiers.alt
    }
}

/// Whether the key is text being typed rather than a command.
pub fn is_typed_text(key: &KeyEvent) -> (typed: bool)
    ensures
        typed == key.types(),
{
    !key.modifiers.control && !key.modifiers.alt
}

impl KeyEvent {
    /// Whether the key ends the pause after an action had the terminal.
    pub open spec fn resumes(self) -> bool {
        !self.release && (self.code is Enter || self.code is Esc || (self.code == KeyCode::Char('c')
            && self.modifiers.control))
    }
}

/// Whether a key ends the pause after an action had the terminal.
pub fn ends_pause(key: &KeyEvent) -> (ends: bool)
    ensures
        ends == key.resumes(),
{
    if key.release {
        return false;
    }
    match key.code {
        KeyCode::Enter | KeyCode::Esc => true,
        KeyCode::Char(c) => c == 'c' && key.modifiers.control,
        _ => false,
    }
}

/// The pause after an action is ended by pressing Enter, Escape or Control-C,
/// and by no other key; letting a key go ends nothing.
pub proof fn what_ends_the_pause(key: KeyEvent)
    ensures
        key.release ==> !key.resumes(),
        !key.release && (key.code is Enter || key.code is Esc) ==> key.resumes(),
        !key.release && key.modifiers.control && key.code == KeyCode::Char('c') ==> key.resumes(),
        key.resumes() ==> key.code is Enter || key.code is Esc || key.code is Char,
        key.code is Char && !key.modifiers.control ==> !key.resumes(),
        key.code is Char && key.code != KeyCode::Char('c') ==> !key.resumes(),
{
}

/// A key is text exactly if neither Control nor Alt is held with it.
pub proof fn what_is_typed_text(key: KeyEvent, code: KeyCode, modifiers: Modifiers)
    ensures
        key.modifiers.control || key.modifiers.alt ==> !key.types(),
        !key.modifiers.control && !key.modifiers.alt ==> key.types(),
        KeyEvent::press(code, modifiers).code == code,
        KeyEvent::press(code, modifiers).modifiers == modifiers,
        !KeyEvent::press(code, modifiers).release,
        KeyEvent::press(code, Modifiers::bare()).types(),
{
}

} // verus!
