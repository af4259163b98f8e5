use vstd::prelude::*;
use vstd::utf8::*;

verus! {

/// A key as the terminal reports it (the codes of the console front end).
#[derive(Clone, Copy, PartialEq, Eq, Debug, Structural)]
pub enum KeyCode {
    Backspace,
    Enter,
    Left,
    Right,
    Up,
    Down,
    Home,
    End,
    PageUp,
    PageDown,
    Tab,
    BackTab,
    Delete,
    Insert,
    F(u8),
    Char(char),
    Null,
    Esc,
    CapsLock,
    ScrollLock,
    NumLock,
    PrintScreen,
    Pause,
    Menu,
    KeypadBegin,
    Media,
    Modifier,
}

/// The modifier keys held while a key was pressed.
#[derive(Clone, Copy, PartialEq, Eq, Debug, Structural)]
pub struct KeyModifiers {
    pub shift: bool,
    pub control: bool,
    pub alt: bool,
    pub super_key: bool,
}

impl KeyModifiers {
    /// No modifier held.
    pub fn none() -> (r: Self)
        ensures
            !r.shift && !r.control && !r.alt && !r.super_key,
    {
        KeyModifiers { shift: false, control: false, alt: false, super_key: false }
    }

    /// Only Control held.
    pub fn ctrl() -> (r: Self)
        ensures
            !r.shift && r.control && !r.alt && !r.super_key,
    {
        KeyModifiers { shift: false, control: true, alt: false, super_key: false }
    }
}

/// A key press: the key and the modifiers held with it.
#[derive(Clone, Copy, PartialEq, Eq, Debug, Structural)]
pub struct KeyEvent {
    pub code: KeyCode,
    pub modifiers: KeyModifiers,
}

impl KeyEvent {
    pub fn new(code: KeyCode, modifiers: KeyModifiers) -> (r: Self)
        ensures
            r.code == code,
            r.modifiers == modifiers,
    {
        KeyEvent { code, modifiers }
    }
}

/// The bytes sent for a character typed with Control held: an ASCII letter
/// gives its control code (Ctrl-A is 1), space gives NUL, `\\`, `]`, `^` and
/// `_` give the separator codes 28 to 31, and any other character (every
/// non-ASCII one among them) is sent as itself in UTF-8.
pub open spec fn ctrl_char_bytes(c: char) -> Seq<u8> {
    let u = c as u32;
    let up = crate::text::ascii_upper(c) as u32;
    if u >= 0x80 {
        encode_utf8(seq![c])
    } else if 0x41 <= up <= 0x5A {
        seq![(up - 0x41 + 1) as u8]
    } else if up == 0x20 {
        seq![0u8]
    } else if up == 0x5C {
        seq![28u8]
    } else if up == 0x5D {
        seq![29u8]
    } else if up == 0x5E {
        seq![30u8]
    } else if up == 0x5F {
        seq![31u8]
    } else {
        encode_utf8(seq![c])
    }
}

/// The escape sequence of function key `n`, for F1 to F12.
pub open spec fn function_key_bytes(n: u8) -> Option<Seq<u8>> {
    if n == 1 {
        Some(seq![0x1bu8, 0x4f, 0x50])
    } else if n == 2 {
        Some(seq![0x1bu8, 0x4f, 0x51])
    } else if n == 3 {
        Some(seq![0x1bu8, 0x4f, 0x52])
    } else if n == 4 {
        Some(seq![0x1bu8, 0x4f, 0x53])
    } else if n == 5 {
        Some(seq![0x1bu8, 0x5b, 0x31, 0x35, 0x7e])
    } else if n == 6 {
        Some(seq![0x1bu8, 0x5b, 0x31, 0x37, 0x7e])
    } else if n == 7 {
        Some(seq![0x1bu8, 0x5b, 0x31, 0x38, 0x7e])
    } else if n == 8 {
        Some(seq![0x1bu8, 0x5b, 0x31, 0x39, 0x7e])
    } else if n == 9 {
        Some(seq![0x1bu8, 0x5b, 0x32, 0x30, 0x7e])
    } else if n == 10 {
        Some(seq![0x1bu8, 0x5b, 0x32, 0x31, 0x7e])
    } else if n == 11 {
        Some(seq![0x1bu8, 0x5b, 0x32, 0x33, 0x7e])
    } else if n == 12 {
        Some(seq![0x1bu8, 0x5b, 0x32, 0x34, 0x7e])
    } else {
        None
    }
}

/// The bytes that a key press sends to the terminal, or none when the key
/// has no terminal encoding.
pub open spec fn key_bytes(key: KeyEvent) -> Option<Seq<u8>> {
    match key.code {
        KeyCode::Char(c) => if key.modifiers.control {
            Some(ctrl_char_bytes(c))
        } else {
            Some(encode_utf8(seq![c]))
        },
        KeyCode::Enter => Some(seq![0x0du8]),
        KeyCode::Tab => Some(seq![0x09u8]),
        KeyCode::Backspace => Some(seq![0x7fu8]),
        KeyCode::Esc => Some(seq![0x1bu8]),
        KeyCode::Left => Some(seq![0x1bu8, 0x5b, 0x44]),
        KeyCode::Right => Some(seq![0x1bu8, 0x5b, 0x43]),
        KeyCode::Up => Some(seq![0x1bu8, 0x5b, 0x41]),
        KeyCode::Down => Some(seq![0x1bu8, 0x5b, 0x42]),
        KeyCode::Home => Some(seq![0x1bu8, 0x5b, 0x48]),
        KeyCode::End => Some(seq![0x1bu8, 0x5b, 0x46]),
        KeyCode::PageUp => Some(seq![0x1bu8, 0x5b, 0x35, 0x7e]),
        KeyCode::PageDown => Some(seq![0x1bu8, 0x5b, 0x36, 0x7e]),
        KeyCode::Delete => Some(seq![0x1bu8, 0x5b, 0x33, 0x7e]),
        KeyCode::Insert => Some(seq![0x1bu8, 0x5b, 0x32, 0x7e]),
        KeyCode::F(n) => function_key_bytes(n),
        _ => None,
    }
}

/// The UTF-8 encoding of one character.
pub fn encode_char(c: char) -> (r: Vec<u8>)
    ensures
        r@ == encode_utf8(seq![c]),
{
    let u = c as u32;
    proof {
        broadcast use char_is_scalar;
        assert(is_scalar(u));
        reveal_with_fuel(encode_utf8, 2);
        assert(seq![c].drop_first() =~= Seq::<char>::empty());
        assert(encode_utf8(seq![c]) =~= encode_scalar(u));
    }
    let mut r: Vec<u8> = Vec::new();
    if u <= 0x7F {
        r.push((u & 0x7F) as u8);
    } else if u <= 0x7FF {
        r.push(0xC0u8 | ((u >> 6) & 0x1F) as u8);
        r.push(0x80u8 | (u & 0x3F) as u8);
    } else if u <= 0xFFFF {
        r.push(0xE0u8 | ((u >> 12) & 0x0F) as u8);
        r.push(0x80u8 | ((u >> 6) & 0x3F) as u8);
        r.push(0x80u8 | (u & 0x3F) as u8);
    } else {
        r.push(0xF0u8 | ((u >> 18) & 0x7) as u8);
        r.push(0x80u8 | ((u >> 12) & 0x3F) as u8);
        r.push(0x80u8 | ((u >> 6) & 0x3F) as u8);
        r.push(0x80u8 | (u & 0x3F) as u8);
    }
    assert(r@ =~= encode_scalar(u));
    r
}

fn bytes3(a: u8, b: u8, c: u8) -> (r: Vec<u8>)
    ensures
        r@ == seq![a, b, c],
{
    let mut r: Vec<u8> = Vec::new();
    r.push(a);
    r.push(b);
    r.push(c);
    assert(r@ =~= seq![a, b, c]);
    r
}

fn bytes4(a: u8, b: u8, c: u8, d: u8) -> (r: Vec<u8>)
    ensures
        r@ == seq![a, b, c, d],
{
    let mut r = bytes3(a, b, c);
    r.push(d);
    assert(r@ =~= seq![a, b, c, d]);
    r
}

fn bytes5(a: u8, b: u8, c: u8, d: u8, e: u8) -> (r: Vec<u8>)
    ensures
        r@ == seq![a, b, c, d, e],
{
    let mut r = bytes4(a, b, c, d);
    r.push(e);
    assert(r@ =~= seq![a, b, c, d, e]);
    r
}

fn byte1(a: u8) -> (r: Vec<u8>)
    ensures
        r@ == seq![a],
{
    let mut r: Vec<u8> = Vec::new();
    r.push(a);
    assert(r@ =~= seq![a]);
    r
}

fn ctrl_char(c: char) -> (r: Vec<u8>)
    ensures
        r@ == ctrl_char_bytes(c),
{
    if (c as u32) >= 0x80 {
        return encode_char(c);
    }
    let up = crate::text::to_ascii_upper(c) as u32;
    if 0x41 <= up && up <= 0x5A {
        byte1((up - 0x41 + 1) as u8)
    } else if up == 0x20 {
        byte1(0)
    } else if up == 0x5C {
        byte1(28)
    } else if up == 0x5D {
        byte1(29)
    } else if up == 0x5E {
        byte1(30)
    } else if up == 0x5F {
        byte1(31)
    } else {
        encode_char(c)
    }
}

fn function_key(n: u8) -> (r: Option<Vec<u8>>)
    ensures
        match function_key_bytes(n) {
            Some(b) => r matches Some(v) && v@ == b,
            None => r is None,
        },
{
    if n == 1 {
        Some(bytes3(0x1b, 0x4f, 0x50))
    } else if n == 2 {
        Some(bytes3(0x1b, 0x4f, 0x51))
    } else if n == 3 {
        Some(bytes3(0x1b, 0x4f, 0x52))
    } else if n == 4 {
        Some(bytes3(0x1b, 0x4f, 0x53))
    } else if n == 5 {
        Some(bytes5(0x1b, 0x5b, 0x31, 0x35, 0x7e))
    } else if n == 6 {
        Some(bytes5(0x1b, 0x5b, 0x31, 0x37, 0x7e))
    } else if n == 7 {
        Some(bytes5(0x1b, 0x5b, 0x31, 0x38, 0x7e))
    } else if n == 8 {
        Some(bytes5(0x1b, 0x5b, 0x31, 0x39, 0x7e))
    } else if n == 9 {
        Some(bytes5(0x1b, 0x5b, 0x32, 0x30, 0x7e))
    } else if n == 10 {
        Some(bytes5(0x1b, 0x5b, 0x32, 0x31, 0x7e))
    } else if n == 11 {
        Some(bytes5(0x1b, 0x5b, 0x32, 0x33, 0x7e))
    } else if n == 12 {
        Some(bytes5(0x1b, 0x5b, 0x32, 0x34, 0x7e))
    } else {
        None
    }
}

/// The bytes to send to the terminal for a key press, or `None` for a key
/// that the terminal has no encoding for.
pub fn encode_key(key: KeyEvent) -> (r: Option<Vec<u8>>)
    ensures
        match key_bytes(key) {
            Some(b) => r matches Some(v) && v@ == b,
            None => r is None,
        },
{
    match key.code {
        KeyCode::Char(c) => if key.modifiers.control {
            Some(ctrl_char(c))
        } else {
            Some(encode_char(c))
        },
        KeyCode::Enter => Some(byte1(0x0d)),
        KeyCode::Tab => Some(byte1(0x09)),
        KeyCode::Backspace => Some(byte1(0x7f)),
        KeyCode::Esc => Some(byte1(0x1b)),
        KeyCode::Left => Some(bytes3(0x1b, 0x5b, 0x44)),
        KeyCode::Right => Some(bytes3(0x1b, 0x5b, 0x43)),
        KeyCode::Up => Some(bytes3(0x1b, 0x5b, 0x41)),
        KeyCode::Down => Some(bytes3(0x1b, 0x5b, 0x42)),
        KeyCode::Home => Some(bytes3(0x1b, 0x5b, 0x48)),
        KeyCode::End => Some(bytes3(0x1b, 0x5b, 0x46)),
        KeyCode::PageUp => Some(bytes4(0x1b, 0x5b, 0x35, 0x7e)),
        KeyCode::PageDown => Some(bytes4(0x1b, 0x5b, 0x36, 0x7e)),
        KeyCode::Delete => Some(bytes4(0x1b, 0x5b, 0x33, 0x7e)),
        KeyCode::Insert => Some(bytes4(0x1b, 0x5b, 0x32, 0x7e)),
        KeyCode::F(n) => function_key(n),
        _ => None,
    }
}

/// Every function key from F1 to F12 has an encoding, and no two of them share one.
pub proof fn law_function_keys_distinct(m: u8, n: u8)
    requires
        1 <= m <= 12,
        1 <= n <= 12,
        m != n,
    ensures
        function_key_bytes(m) is Some,
        function_key_bytes(m) != function_key_bytes(n),
{
    let a = function_key_bytes(m)->0;
    let b = function_key_bytes(n)->0;
    if a.len() == b.len() {
        if a.len() == 3 {
            assert(a[2] != b[2]);
        } else {
            assert(a[2] != b[2] || a[3] != b[3]);
        }
    }
}

/// A function key sends the xterm sequence for it, whatever modifiers are
/// held: F1 to F4 send `ESC O P`, `ESC O Q`, `ESC O R` and `ESC O S`; F5 to
/// F12 send `ESC [ k ~` with k = 15, 17, 18, 19, 20, 21, 23 and 24 in turn;
/// any other function key sends nothing.
pub proof fn law_function_key_sequences(m: KeyModifiers, n: u8)
    ensures
        key_bytes(KeyEvent { code: KeyCode::F(1), modifiers: m }) == Some(seq![0x1bu8, 0x4fu8, 0x50u8]),
        key_bytes(KeyEvent { code: KeyCode::F(2), modifiers: m }) == Some(seq![0x1bu8, 0x4fu8, 0x51u8]),
        key_bytes(KeyEvent { code: KeyCode::F(3), modifiers: m }) == Some(seq![0x1bu8, 0x4fu8, 0x52u8]),
        key_bytes(KeyEvent { code: KeyCode::F(4), modifiers: m }) == Some(seq![0x1bu8, 0x4fu8, 0x53u8]),
        key_bytes(KeyEvent { code: KeyCode::F(5), modifiers: m }) == Some(seq![0x1bu8, 0x5bu8, 0x31u8, 0x35u8, 0x7eu8]),
        key_bytes(KeyEvent { code: KeyCode::F(6), modifiers: m }) == Some(seq![0x1bu8, 0x5bu8, 0x31u8, 0x37u8, 0x7eu8]),
        key_bytes(KeyEvent { code: KeyCode::F(7), modifiers: m }) == Some(seq![0x1bu8, 0x5bu8, 0x31u8, 0x38u8, 0x7eu8]),
        key_bytes(KeyEvent { code: KeyCode::F(8), modifiers: m }) == Some(seq![0x1bu8, 0x5bu8, 0x31u8, 0x39u8, 0x7eu8]),
        key_bytes(KeyEvent { code: KeyCode::F(9), modifiers: m }) == Some(seq![0x1bu8, 0x5bu8, 0x32u8, 0x30u8, 0x7eu8]),
        key_bytes(KeyEvent { code: KeyCode::F(10), modifiers: m }) == Some(seq![0x1bu8, 0x5bu8, 0x32u8, 0x31u8, 0x7eu8]),
        key_bytes(KeyEvent { code: KeyCode::F(11), modifiers: m }) == Some(seq![0x1bu8, 0x5bu8, 0x32u8, 0x33u8, 0x7eu8]),
        key_bytes(KeyEvent { code: KeyCode::F(12), modifiers: m }) == Some(seq![0x1bu8, 0x5bu8, 0x32u8, 0x34u8, 0x7eu8]),
        (n == 0 || n > 12) ==> key_bytes(KeyEvent { code: KeyCode::F(n), modifiers: m }) is None,
{
}

/// How many rows the terminal gets in a pane of `pane_h` rows.
pub open spec fn term_rows(pane_h: u16) -> u16 {
    if pane_h < 10 {
        if pane_h <= 3 {
            1
        } else {
            (pane_h - 3) as u16
        }
    } else {
        let frac = if pane_h >= 30 {
            pane_h / 2
        } else {
            pane_h / 3
        };
        if frac < 5 {
            5
        } else if frac > pane_h - 3 {
            (pane_h - 3) as u16
        } else {
            frac
        }
    }
}

/// The height of the terminal below a file list of `pane_h` rows: at least
/// one row, a third of a medium pane but never less than five, half of a tall
/// pane, and always leaving three rows for the list once the pane has ten.
pub fn term_height(pane_h: u16) -> (r: u16)
    ensures
        r == term_rows(pane_h),
{
    if pane_h < 10 {
        let s = pane_h.saturating_sub(3);
        return if s < 1 {
            1
        } else {
            s
        };
    }
    let frac = if pane_h >= 30 {
        pane_h / 2
    } else {
        pane_h / 3
    };
    let hi = pane_h.saturating_sub(3);
    if frac < 5 {
        5
    } else if frac > hi {
        hi
    } else {
        frac
    }
}

/// The terminal never takes the whole pane: it gets at least one row and no
/// more rows than the pane has, and a pane of ten rows or more keeps three
/// for the file list.
pub proof fn law_terminal_fits_pane(pane_h: u16)
    requires
        pane_h >= 1,
    ensures
        1 <= term_rows(pane_h) <= pane_h,
        pane_h >= 10 ==> pane_h - term_rows(pane_h) >= 3,
{
}

} // verus!
