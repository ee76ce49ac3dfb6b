//! The serial console's logic: the UART's registers and the bytes written to
//! them, the translation of received bytes, the line kept for input and what
//! is echoed, and ANSI colour escapes.
use vstd::prelude::*;

verus! {

/// I/O base of the first serial port.
pub const COM1: u16 = 0x3F8;

/// Control-H.
pub const BACKSPACE: u8 = 0x08;
pub const DELETE: u8 = 0x7F;

/// Line status: a received byte is waiting.
pub const INPUT_FULL: u8 = 1;
/// Line status: the transmitter can take a byte.
pub const OUTPUT_EMPTY: u8 = 1 << 5;

/// The control character typed with `c`, an upper-case letter or one of
/// `@[\]^_`.
pub fn ctrl(c: u8) -> (r: u8)
    requires
        c >= 0x40,
    ensures
        r == c - 0x40,
{
    c - 0x40
}

/// A 16550 UART at an I/O base.
#[derive(Clone, Copy, Debug, PartialEq, Eq, Structural)]
pub struct Uart(pub u16);

impl Uart {
    pub fn new(base: u16) -> (r: Uart)
        ensures
            r.0 == base,
    {
        Uart(base)
    }

    pub fn port_base(&self) -> (r: u16)
        ensures
            r == self.0,
    {
        self.0
    }

    pub fn port_data(&self) -> (r: u16)
        ensures
            r == self.0,
    {
        self.port_base()
    }

    pub fn port_intr_enable(&self) -> (r: u16)
        requires
            self.0 <= u16::MAX - 5,
        ensures
            r == self.0 + 1,
    {
        self.port_base() + 1
    }

    pub fn port_fifo_ctrl(&self) -> (r: u16)
        requires
            self.0 <= u16::MAX - 5,
        ensures
            r == self.0 + 2,
    {
        self.port_base() + 2
    }

    pub fn port_line_ctrl(&self) -> (r: u16)
        requires
            self.0 <= u16::MAX - 5,
        ensures
            r == self.0 + 3,
    {
        self.port_base() + 3
    }

    pub fn port_modem_ctrl(&self) -> (r: u16)
        requires
            self.0 <= u16::MAX - 5,
        ensures
            r == self.0 + 4,
    {
        self.port_base() + 4
    }

    pub fn port_line_status(&self) -> (r: u16)
        requires
            self.0 <= u16::MAX - 5,
        ensures
            r == self.0 + 5,
    {
        self.port_base() + 5
    }

    /// The port writes that bring the UART up, in order: interrupts off,
    /// divisor for 38400 baud, eight data bits, FIFOs on and cleared with a
    /// 14-byte threshold, DTR, RTS and OUT2 set, then receive interrupts on.
    pub fn init(&self) -> (r: Vec<(u16, u8)>)
        requires
            self.0 <= u16::MAX - 5,
        ensures
            r@ == seq![
                ((self.0 + 1) as u16, 0x00u8),
                ((self.0 + 3) as u16, 0x80u8),
                (self.0, 0x03u8),
                ((self.0 + 1) as u16, 0x00u8),
                ((self.0 + 3) as u16, 0x03u8),
                ((self.0 + 2) as u16, 0xc7u8),
                ((self.0 + 4) as u16, 0x0bu8),
                ((self.0 + 1) as u16, 0x01u8),
            ],
    {
        let mut w: Vec<(u16, u8)> = Vec::new();
        w.push((self.port_intr_enable(), 0x00));
        w.push((self.port_line_ctrl(), 0x80));
        w.push((self.port_data(), 0x03));
        w.push((self.port_intr_enable(), 0x00));
        w.push((self.port_line_ctrl(), 0x03));
        w.push((self.port_fifo_ctrl(), 0xc7));
        w.push((self.port_modem_ctrl(), 0x0b));
        w.push((self.port_intr_enable(), 0x01));
        assert(w@ =~= seq![
            ((self.0 + 1) as u16, 0x00u8),
            ((self.0 + 3) as u16, 0x80u8),
            (self.0, 0x03u8),
            ((self.0 + 1) as u16, 0x00u8),
            ((self.0 + 3) as u16, 0x03u8),
            ((self.0 + 2) as u16, 0xc7u8),
            ((self.0 + 4) as u16, 0x0bu8),
            ((self.0 + 1) as u16, 0x01u8),
        ]);
        w
    }

    /// The bytes that go out for `data`: a backspace or delete erases the
    /// last character on the terminal, anything else goes out as it is.
    pub fn send(&self, data: u8) -> (r: Vec<u8>)
        ensures
            (data == BACKSPACE || data == DELETE) ==> r@ == seq![0x08u8, 0x20u8, 0x08u8],
            !(data == BACKSPACE || data == DELETE) ==> r@ == seq![data],
    {
        let mut out: Vec<u8> = Vec::new();
        if data == BACKSPACE || data == DELETE {
            out.push(0x08);
            out.push(0x20);
            out.push(0x08);
            assert(out@ =~= seq![0x08u8, 0x20u8, 0x08u8]);
        } else {
            out.push(data);
            assert(out@ =~= seq![data]);
        }
        out
    }

    /// Whether the line status says a byte can be sent.
    pub fn can_send(&self, line_status: u8) -> (r: bool)
        ensures
            r == (line_status & OUTPUT_EMPTY != 0),
    {
        line_status & OUTPUT_EMPTY != 0
    }

    /// Whether the line status says a received byte is waiting.
    pub fn can_receive(&self, line_status: u8) -> (r: bool)
        ensures
            r == (line_status & INPUT_FULL != 0),
    {
        line_status & INPUT_FULL != 0
    }
}

/// End of text, typed as control-C.
pub const ETX_KEY: char = '\x03';
/// End of transmission, typed as control-D.
pub const EOT_KEY: char = '\x04';
/// Backspace.
pub const BS_KEY: char = '\x08';
/// Escape.
pub const ESC_KEY: char = '\x1B';

/// The key a byte from the serial line stands for: carriage return reads as
/// a newline, delete as backspace; 0xFF means nothing was received.
pub fn translate_input(byte: u8) -> (r: Option<char>)
    ensures
        byte == 0xFF ==> r is None,
        byte == 0x0D ==> r == Some('\n'),
        byte == 0x7F ==> r == Some(BS_KEY),
        byte != 0xFF && byte != 0x0D && byte != 0x7F ==> r == Some(byte as char),
{
    if byte == 0xFF {
        None
    } else if byte == 0x0D {
        Some('\n')
    } else if byte == 0x7F {
        Some(BS_KEY)
    } else {
        Some(byte as char)
    }
}

/// Number of bytes `c` takes in UTF-8.
pub open spec fn utf8_len(c: char) -> nat {
    if (c as u32) < 0x80 {
        1
    } else if (c as u32) < 0x800 {
        2
    } else if (c as u32) < 0x10000 {
        3
    } else {
        4
    }
}

fn len_utf8(c: char) -> (r: usize)
    ensures
        r == utf8_len(c),
{
    let v = c as u32;
    if v < 0x80 {
        1
    } else if v < 0x800 {
        2
    } else if v < 0x10000 {
        3
    } else {
        4
    }
}

/// What echoing `key` shows: control-C, control-D and escape in caret form,
/// anything else as it is.
pub open spec fn echo_of(key: char) -> Seq<char> {
    if key == ETX_KEY {
        seq!['^', 'C']
    } else if key == EOT_KEY {
        seq!['^', 'D']
    } else if key == ESC_KEY {
        seq!['^', '[']
    } else {
        seq![key]
    }
}

/// Number of columns a character takes when echoed.
pub open spec fn echo_width(c: char) -> nat {
    if c == ETX_KEY || c == EOT_KEY || c == ESC_KEY {
        2
    } else {
        utf8_len(c)
    }
}

/// The console's input line and whether it echoes.
#[derive(Debug)]
pub struct Console {
    stdin: Vec<char>,
    echo: bool,
}

impl Console {
    pub closed spec fn spec_stdin(&self) -> Seq<char> {
        self.stdin@
    }

    pub closed spec fn spec_echo(&self) -> bool {
        self.echo
    }

    /// An empty line, echo on.
    pub fn new() -> (r: Console)
        ensures
            r.spec_stdin().len() == 0,
            r.spec_echo(),
    {
        Console { stdin: Vec::new(), echo: true }
    }

    pub fn is_echo(&self) -> (r: bool)
        ensures
            r == self.spec_echo(),
    {
        self.echo
    }

    pub fn set_echo(&mut self, b: bool)
        ensures
            final(self).spec_echo() == b,
            final(self).spec_stdin() == old(self).spec_stdin(),
    {
        self.echo = b;
    }

    /// The characters typed so far.
    pub fn stdin(&self) -> (r: Vec<char>)
        ensures
            r@ == self.spec_stdin(),
    {
        self.stdin.clone()
    }
}

pub fn is_echo_enabled(console: &Console) -> (r: bool)
    ensures
        r == console.spec_echo(),
{
    console.is_echo()
}

pub fn enable_echo(console: &mut Console)
    ensures
        final(console).spec_echo(),
        final(console).spec_stdin() == old(console).spec_stdin(),
{
    console.set_echo(true)
}

pub fn disable_echo(console: &mut Console)
    ensures
        !final(console).spec_echo(),
        final(console).spec_stdin() == old(console).spec_stdin(),
{
    console.set_echo(false)
}

/// Takes a key into the line and returns what the terminal shows for it. A
/// backspace removes the last character and rubs out as many columns as it
/// took; any other key is appended and, with echo on, shown.
pub fn keypress(console: &mut Console, key: char) -> (r: Vec<char>)
    ensures
        final(console).spec_echo() == old(console).spec_echo(),
        key == BS_KEY && old(console).spec_stdin().len() == 0 ==> {
            &&& final(console).spec_stdin() == old(console).spec_stdin()
            &&& r@.len() == 0
        },
        key == BS_KEY && old(console).spec_stdin().len() > 0 ==> {
            &&& final(console).spec_stdin() == old(console).spec_stdin().drop_last()
            &&& r@ == Seq::new(echo_width(old(console).spec_stdin().last()), |i: int| BS_KEY)
        },
        key != BS_KEY ==> {
            &&& final(console).spec_stdin() == old(console).spec_stdin().push(key)
            &&& r@ == if old(console).spec_echo() {
                echo_of(key)
            } else {
                Seq::empty()
            }
        },
{
    let mut out: Vec<char> = Vec::new();
    if key == BS_KEY {
        if let Some(c) = console.stdin.pop() {
            let n = if c == ETX_KEY || c == EOT_KEY || c == ESC_KEY {
                2
            } else {
                len_utf8(c)
            };
            let mut i: usize = 0;
            while i < n
                invariant
                    i <= n,
                    out@ == Seq::new(i as nat, |j: int| BS_KEY),
                decreases n - i,
            {
                out.push(BS_KEY);
                assert(out@ =~= Seq::new((i + 1) as nat, |j: int| BS_KEY));
                i = i + 1;
            }
        } else {
            assert(out@.len() == 0);
        }
    } else {
        console.stdin.push(key);
        if console.echo {
            if key == ETX_KEY {
                out.push('^');
                out.push('C');
            } else if key == EOT_KEY {
                out.push('^');
                out.push('D');
            } else if key == ESC_KEY {
                out.push('^');
                out.push('[');
            } else {
                out.push(key);
            }
            assert(out@ =~= echo_of(key));
        }
    }
    out
}

/// Capacity of the console's input buffer in characters.
pub const INPUT_BUF: usize = 256;

/// Control-U: erase the line being typed.
pub const CTRL_U: u8 = 0x15;
/// Control-D: end of input, which ends a line.
pub const CTRL_D: u8 = 0x04;

/// Input typed at the console: lines that are complete and may be read,
/// and the line still being edited. Together they hold at most `INPUT_BUF`
/// characters.
#[derive(Debug)]
pub struct ConsoleInputBuffer {
    committed: Vec<char>,
    editing: Vec<char>,
    echo: bool,
}

/// What the line discipline does with byte `ch`, from committed input
/// `committed`, the line being edited `editing` and the echo flag: the new
/// committed input, the new line and what is echoed.
pub open spec fn discipline(committed: Seq<char>, editing: Seq<char>, echo: bool, ch: u8) -> (
    Seq<char>,
    Seq<char>,
    Seq<char>,
) {
    if ch == CTRL_U {
        (
            committed,
            Seq::empty(),
            if echo {
                Seq::new(editing.len(), |i: int| BS_KEY)
            } else {
                Seq::empty()
            },
        )
    } else if ch != 0 && committed.len() + editing.len() < INPUT_BUF {
        let c = if ch == 0x0D {
            '\n'
        } else {
            ch as char
        };
        let line = editing.push(c);
        let shown = if echo {
            seq![c]
        } else {
            Seq::empty()
        };
        if c == '\n' || ch == CTRL_D || committed.len() + line.len() == INPUT_BUF {
            (committed + line, Seq::empty(), shown)
        } else {
            (committed, line, shown)
        }
    } else {
        (committed, editing, Seq::empty())
    }
}

impl ConsoleInputBuffer {
    pub closed spec fn spec_committed(&self) -> Seq<char> {
        self.committed@
    }

    pub closed spec fn spec_editing(&self) -> Seq<char> {
        self.editing@
    }

    pub closed spec fn spec_echo(&self) -> bool {
        self.echo
    }

    pub open spec fn wf(&self) -> bool {
        self.spec_committed().len() + self.spec_editing().len() <= INPUT_BUF
    }

    /// An empty buffer.
    pub fn new(echo: bool) -> (r: ConsoleInputBuffer)
        ensures
            r.wf(),
            r.spec_committed().len() == 0,
            r.spec_editing().len() == 0,
            r.spec_echo() == echo,
    {
        ConsoleInputBuffer { committed: Vec::new(), editing: Vec::new(), echo }
    }

    pub fn set_echo(&mut self, echo: bool)
        ensures
            final(self).spec_echo() == echo,
            final(self).spec_committed() == old(self).spec_committed(),
            final(self).spec_editing() == old(self).spec_editing(),
    {
        self.echo = echo;
    }

    /// The complete lines not yet read.
    pub fn committed(&self) -> (r: Vec<char>)
        ensures
            r@ == self.spec_committed(),
    {
        self.committed.clone()
    }

    /// Takes the oldest committed character, if any.
    pub fn read(&mut self) -> (r: Option<char>)
        requires
            old(self).wf(),
        ensures
            final(self).wf(),
            final(self).spec_editing() == old(self).spec_editing(),
            final(self).spec_echo() == old(self).spec_echo(),
            old(self).spec_committed().len() == 0 ==> r is None && final(self).spec_committed()
                == old(self).spec_committed(),
            old(self).spec_committed().len() > 0 ==> r == Some(old(self).spec_committed()[0])
                && final(self).spec_committed() == old(self).spec_committed().drop_first(),
    {
        if self.committed.len() == 0 {
            None
        } else {
            let c = self.committed.remove(0);
            assert(self.committed@ =~= old(self).committed@.drop_first());
            Some(c)
        }
    }

    /// Takes byte `ch` from the serial line: control-U erases the line being
    /// edited; any other byte but NUL joins it while there is room, a
    /// carriage return as a newline, and a newline, control-D or a full
    /// buffer makes the line complete. Returns what is echoed.
    pub fn interrupt(&mut self, ch: u8) -> (r: Vec<char>)
        requires
            old(self).wf(),
        ensures
            final(self).wf(),
            final(self).spec_echo() == old(self).spec_echo(),
            (final(self).spec_committed(), final(self).spec_editing(), r@) == discipline(
                old(self).spec_committed(),
                old(self).spec_editing(),
                old(self).spec_echo(),
                ch,
            ),
    {
        let mut out: Vec<char> = Vec::new();
        if ch == CTRL_U {
            while self.editing.len() > 0
                invariant
                    self.committed@ == old(self).committed@,
                    self.echo == old(self).echo,
                    self.editing@ == old(self).editing@.take(self.editing@.len() as int),
                    self.editing@.len() <= old(self).editing@.len(),
                    out@ == if self.echo {
                        Seq::new((old(self).editing@.len() - self.editing@.len()) as nat, |i: int| BS_KEY)
                    } else {
                        Seq::empty()
                    },
                decreases self.editing@.len(),
            {
                self.editing.pop();
                if self.echo {
                    out.push(BS_KEY);
                }
                assert(self.editing@ =~= old(self).editing@.take(self.editing@.len() as int));
                assert(out@ =~= if self.echo {
                    Seq::new((old(self).editing@.len() - self.editing@.len()) as nat, |i: int| BS_KEY)
                } else {
                    Seq::empty()
                });
            }
            assert(self.editing@ =~= Seq::<char>::empty());
        } else if ch != 0 && self.committed.len() + self.editing.len() < INPUT_BUF {
            let c = if ch == 0x0D {
                '\n'
            } else {
                ch as char
            };
            self.editing.push(c);
            if self.echo {
                out.push(c);
            }
            if c == '\n' || ch == CTRL_D || self.committed.len() + self.editing.len() == INPUT_BUF {
                self.committed.append(&mut self.editing);
                assert(self.editing@ =~= Seq::<char>::empty());
            }
            assert(out@ =~= if old(self).echo {
                seq![c]
            } else {
                Seq::empty()
            });
        }
        out
    }
}

/// The sixteen ANSI colours.
#[derive(Clone, Copy, Debug, PartialEq, Eq, Structural)]
pub enum Color {
    Black,
    Red,
    Green,
    Brown,
    Blue,
    Magenta,
    Cyan,
    LightGray,
    DarkGray,
    LightRed,
    LightGreen,
    Yellow,
    LightBlue,
    Pink,
    LightCyan,
    White,
}

impl Color {
    pub open spec fn spec_code(&self) -> u8 {
        match *self {
            Color::Black => 30,
            Color::Red => 31,
            Color::Green => 32,
            Color::Brown => 33,
            Color::Blue => 34,
            Color::Magenta => 35,
            Color::Cyan => 36,
            Color::LightGray => 37,
            Color::DarkGray => 90,
            Color::LightRed => 91,
            Color::LightGreen => 92,
            Color::Yellow => 93,
            Color::LightBlue => 94,
            Color::Pink => 95,
            Color::LightCyan => 96,
            Color::White => 97,
        }
    }

    /// The colour's foreground code; its background code is ten more.
    pub fn code(&self) -> (r: u8)
        ensures
            r == self.spec_code(),
            30 <= r <= 97,
    {
        match *self {
            Color::Black => 30,
            Color::Red => 31,
            Color::Green => 32,
            Color::Brown => 33,
            Color::Blue => 34,
            Color::Magenta => 35,
            Color::Cyan => 36,
            Color::LightGray => 37,
            Color::DarkGray => 90,
            Color::LightRed => 91,
            Color::LightGreen => 92,
            Color::Yellow => 93,
            Color::LightBlue => 94,
            Color::Pink => 95,
            Color::LightCyan => 96,
            Color::White => 97,
        }
    }
}

/// A foreground and a background colour, each optional.
#[derive(Clone, Copy, Debug, PartialEq, Eq, Structural)]
pub struct Style {
    pub foreground: Option<Color>,
    pub background: Option<Color>,
}

/// Decimal digits of `n`, most significant first.
pub open spec fn decimal(n: nat) -> Seq<char>
    decreases n,
{
    if n < 10 {
        seq![digit(n)]
    } else {
        decimal(n / 10).push(digit(n % 10))
    }
}

pub open spec fn digit(d: nat) -> char {
    ((d % 10) + 48) as char
}

fn push_decimal(out: &mut Vec<char>, n: u8)
    ensures
        final(out)@ == old(out)@ + decimal(n as nat),
{
    let mut digits: Vec<char> = Vec::new();
    if n >= 100 {
        digits.push(((n / 100) + 48) as char);
    }
    if n >= 10 {
        digits.push((((n / 10) % 10) + 48) as char);
    }
    digits.push(((n % 10) + 48) as char);
    proof {
        if n >= 100 {
            assert(decimal((n / 10) as nat) == decimal((n / 100) as nat).push(digit(((n / 10) % 10) as nat)));
            assert(decimal((n / 100) as nat) == seq![digit((n / 100) as nat)]);
        } else if n >= 10 {
            assert(decimal((n / 10) as nat) == seq![digit((n / 10) as nat)]);
        }
        assert(digits@ =~= decimal(n as nat));
    }
    out.append(&mut digits);
}

impl Style {
    /// The escape sequence that selects this style: foreground and
    /// background codes where both are set, the one code where one is, and
    /// the reset sequence where neither is.
    pub open spec fn spec_escape(&self) -> Seq<char> {
        match (self.foreground, self.background) {
            (Some(fg), Some(bg)) => seq!['\x1b', '['] + decimal(fg.spec_code() as nat) + seq![';']
                + decimal((bg.spec_code() + 10) as nat) + seq!['m'],
            (Some(fg), None) => seq!['\x1b', '['] + decimal(fg.spec_code() as nat) + seq!['m'],
            (None, Some(bg)) => seq!['\x1b', '['] + decimal((bg.spec_code() + 10) as nat) + seq!['m'],
            (None, None) => seq!['\x1b', '[', '0', 'm'],
        }
    }

    /// No colours.
    pub fn new() -> (r: Style)
        ensures
            r.foreground is None,
            r.background is None,
    {
        Style { foreground: None, background: None }
    }

    /// No colours: the style that resets the terminal.
    pub fn reset() -> (r: Style)
        ensures
            r.foreground is None,
            r.background is None,
    {
        Style { foreground: None, background: None }
    }

    pub fn foreground(self, color: Color) -> (r: Style)
        ensures
            r.foreground == Some(color),
            r.background == self.background,
    {
        Style { foreground: Some(color), background: self.background }
    }

    pub fn background(self, color: Color) -> (r: Style)
        ensures
            r.foreground == self.foreground,
            r.background == Some(color),
    {
        Style { foreground: self.foreground, background: Some(color) }
    }

    /// The escape sequence that selects this style.
    pub fn escape(&self) -> (r: Vec<char>)
        ensures
            r@ == self.spec_escape(),
    {
        let mut out: Vec<char> = Vec::new();
        out.push('\x1b');
        out.push('[');
        match (self.foreground, self.background) {
            (Some(fg), Some(bg)) => {
                push_decimal(&mut out, fg.code());
                out.push(';');
                push_decimal(&mut out, bg.code() + 10);
                out.push('m');
            },
            (Some(fg), None) => {
                push_decimal(&mut out, fg.code());
                out.push('m');
            },
            (None, Some(bg)) => {
                push_decimal(&mut out, bg.code() + 10);
                out.push('m');
            },
            (None, None) => {
                out.push('0');
                out.push('m');
            },
        }
        assert(out@ =~= self.spec_escape());
        out
    }
}

} // verus!
