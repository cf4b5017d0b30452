//! The device-tree side of a calibration: which GPIO carries the transmit
//! clock, where its pin configuration register lies, and which device-tree
//! nodes select that pin.
use vstd::prelude::*;
use vstd::string::StrSliceExecFns;

use crate::text::{
    after, after_char, before, before_char, char_pos, contains, contains_text, find_char,
    find_suffix_start, has_prefix, last_segment, parse_unsigned, same_text, starts_with, suffix_start,
    trim_end, unsigned_of,
};

verus! {

/// A pin-mux entry of the device tree: bank, line and function of one pin.
#[derive(Debug, Clone, Copy, PartialEq, Eq, Structural)]
pub struct PinMux {
    pub bank: u8,
    pub line: u8,
    pub _mode: u8,
}

/// The entry that a 32-bit pin-mux cell holds: the function in bits 0-7,
/// the line in bits 8-11, the bank in bits 12-15.
pub open spec fn pinmux_of(value: u32) -> PinMux {
    PinMux {
        bank: ((value / 4096) % 16) as u8,
        line: ((value / 256) % 16) as u8,
        _mode: (value % 256) as u8,
    }
}

impl From<u32> for PinMux {
    fn from(value: u32) -> PinMux {
        assert((value & 0xFF) == value % 256) by (bit_vector);
        assert(((value & 0xF00) >> 8) == (value / 256) % 16) by (bit_vector);
        assert(((value & 0xF000) >> 12) == (value / 4096) % 16) by (bit_vector);
        PinMux {
            _mode: (value & 0xFF) as u8,
            line: ((value & 0xF00) >> 8) as u8,
            bank: ((value & 0xF000) >> 12) as u8,
        }
    }
}

impl vstd::std_specs::convert::FromSpecImpl<u32> for PinMux {
    open spec fn obeys_from_spec() -> bool {
        true
    }

    open spec fn from_spec(v: u32) -> PinMux {
        pinmux_of(v)
    }
}

/// A GPIO: its bank letter, its line within the bank, and the pin
/// controller it belongs to.
#[derive(Debug)]
pub struct Gpio {
    pub bank: char,
    pub line: u8,
    pub pinctrl: String,
}

/// The pin-mux entry selects the GPIO (bank 0 is bank 'A').
pub open spec fn selects(p: PinMux, bank: char, line: u8) -> bool {
    p.bank + ('A' as u32) == bank as u32 && p.line == line
}

/// The big-endian 32-bit word at byte `i` of `b`.
pub open spec fn be_word(b: Seq<u8>, i: int) -> u32 {
    (b[i] as int * 0x1000000 + b[i + 1] as int * 0x10000 + b[i + 2] as int * 0x100 + b[i + 3] as int) as u32
}

/// Some complete 32-bit cell of a pin-mux property selects the GPIO.
pub open spec fn property_selects(b: Seq<u8>, bank: char, line: u8) -> bool {
    exists|k: int| 0 <= k < b.len() / 4 && #[trigger] selects(pinmux_of(be_word(b, 4 * k)), bank, line)
}

/// Whether a pin-mux entry selects the GPIO.
pub fn pinmux_selects(p: &PinMux, gpio: &Gpio) -> (r: bool)
    ensures
        r == selects(*p, gpio.bank, gpio.line),
{
    (p.bank as u32) + ('A' as u32) == (gpio.bank as u32) && p.line == gpio.line
}

/// Reads the big-endian 32-bit word at byte `i`.
fn read_be_word(b: &[u8], i: usize) -> (r: u32)
    requires
        i + 4 <= b@.len(),
    ensures
        r == be_word(b@, i as int),
{
    (b[i] as u32) * 0x1000000 + (b[i + 1] as u32) * 0x10000 + (b[i + 2] as u32) * 0x100 + (b[i + 3] as u32)
}

/// Whether a `pinmux` property, given as its raw bytes, has a cell that
/// selects the GPIO. Trailing bytes that do not fill a cell are ignored.
pub fn pinmux_property_selects(property: &[u8], gpio: &Gpio) -> (r: bool)
    ensures
        r == property_selects(property@, gpio.bank, gpio.line),
{
    let len = property.len();
    let n = len / 4;
    let mut k: usize = 0;
    while k < n
        invariant
            len == property@.len(),
            n == property@.len() / 4,
            k <= n,
            forall|j: int| 0 <= j < k ==> !#[trigger] selects(pinmux_of(be_word(property@, 4 * j)), gpio.bank, gpio.line),
        decreases n - k,
    {
        assert(4 * k + 4 <= property@.len()) by (nonlinear_arith)
            requires
                k < n,
                n == property@.len() / 4,
        ;
        assert(4 * k + 4 <= len);
        let value = read_be_word(property, 4 * k);
        let pinmux = PinMux::from(value);
        if pinmux_selects(&pinmux, gpio) {
            assert(selects(pinmux_of(be_word(property@, 4 * k)), gpio.bank, gpio.line));
            return true;
        }
        k = k + 1;
    }
    false
}

} // verus!

verus! {

/// Where the kernel exposes the device tree.
pub const DT_BASE: &'static str = "/sys/firmware/devicetree/base";

/// The device-tree node path of a directory under [`DT_BASE`]: the part after
/// the base, or "/" for the base itself.
pub open spec fn node_of(path: Seq<char>) -> Option<Seq<char>> {
    let base = DT_BASE@;
    if has_prefix(path, base) && path.len() == base.len() {
        Some("/"@)
    } else if has_prefix(path, base) && path[base.len() as int] == '/' {
        Some(path.subrange(base.len() as int, path.len() as int))
    } else {
        None
    }
}

/// The node paths of the directories that lie under [`DT_BASE`], in order.
pub open spec fn nodes_of(paths: Seq<Seq<char>>) -> Seq<Seq<char>> {
    paths.filter_map(|p: Seq<char>| node_of(p))
}

/// The device-tree node path of a directory, `None` when it does not lie
/// under [`DT_BASE`].
pub fn node_path(path: &str) -> (r: Option<String>)
    ensures
        r is Some <==> node_of(path@) is Some,
        r matches Some(n) ==> n@ == node_of(path@)->Some_0,
{
    let base = DT_BASE;
    if !starts_with(path, base) {
        return None;
    }
    let n = path.unicode_len();
    let m = base.unicode_len();
    if n == m {
        Some(String::from_str("/"))
    } else if path.get_char(m) == '/' {
        Some(String::from_str(path.substring_char(m, n)))
    } else {
        None
    }
}

/// The node paths of the directories found under [`DT_BASE`], in order;
/// directories elsewhere are left out.
pub fn find_nodes(paths: &Vec<String>) -> (r: Vec<String>)
    ensures
        r@.map_values(|n: String| n@) == nodes_of(paths@.map_values(|p: String| p@)),
{
    let ghost views = paths@.map_values(|p: String| p@);
    let mut r: Vec<String> = Vec::new();
    let mut i: usize = 0;
    while i < paths.len()
        invariant
            i <= paths@.len(),
            views == paths@.map_values(|p: String| p@),
            r@.map_values(|n: String| n@) == nodes_of(views.take(i as int)),
        decreases paths.len() - i,
    {
        let node = node_path(paths[i].as_str());
        proof {
            views.lemma_filter_map_take_succ(|p: Seq<char>| node_of(p), i as int);
        }
        let ghost before = r@;
        if let Some(n) = node {
            r.push(n);
            assert(r@.map_values(|n: String| n@) =~= before.map_values(|n: String| n@).push(n@));
        }
        assert(r@.map_values(|n: String| n@) =~= nodes_of(views.take(i + 1)));
        i = i + 1;
    }
    assert(views.take(i as int) =~= views);
    r
}

} // verus!

verus! {

/// The view of an optional string.
pub open spec fn text_of(r: Option<String>) -> Option<Seq<char>> {
    match r {
        Some(s) => Some(s@),
        None => None,
    }
}

/// A `uevent` line that names the device-tree node: `OF_NAME=...`.
pub open spec fn is_of_name_line(line: Seq<char>) -> bool {
    before(line, '=') == "OF_NAME"@
}

/// The value of a `KEY=value` line: up to the next `=`, `None` without `=`.
pub open spec fn line_value(line: Seq<char>) -> Option<Seq<char>> {
    if char_pos(line, '=') < line.len() {
        Some(before(after(line, '='), '='))
    } else {
        None
    }
}

/// The device-tree name of a network device, from the lines of its `uevent`
/// file: the value of the first `OF_NAME` line; `None` when there is no such
/// line or it holds no value.
pub fn get_name(uevent: &Vec<String>) -> (r: Option<String>)
    ensures
        (forall|i: int| 0 <= i < uevent@.len() ==> !is_of_name_line(#[trigger] uevent@[i]@)) ==> r is None,
        forall|i: int|
            0 <= i < uevent@.len() && is_of_name_line(#[trigger] uevent@[i]@) && (forall|j: int|
                0 <= j < i ==> !is_of_name_line(uevent@[j]@)) ==> text_of(r) == line_value(uevent@[i]@),
{
    let mut i: usize = 0;
    while i < uevent.len()
        invariant
            i <= uevent@.len(),
            forall|j: int| 0 <= j < i ==> !is_of_name_line(#[trigger] uevent@[j]@),
        decreases uevent.len() - i,
    {
        let line = uevent[i].as_str();
        if same_text(before_char(line, '='), "OF_NAME") {
            let n = line.unicode_len();
            if find_char(line, '=') < n {
                let value = before_char(after_char(line, '='), '=');
                return Some(String::from_str(value));
            } else {
                return None;
            }
        }
        i = i + 1;
    }
    None
}

/// The pin controller that a `pinctrl` debugfs directory stands for:
/// `soc:pinctrl@ADDR` gives `pinctrl@ADDR`.
pub open spec fn pinctrl_of(name: Seq<char>) -> Option<Seq<char>> {
    if before(name, '@') == "soc:pinctrl"@ {
        Some(
            "pinctrl@"@ + if char_pos(name, '@') < name.len() {
                before(after(name, '@'), '@')
            } else {
                "???"@
            },
        )
    } else {
        None
    }
}

/// The pin controller that a `pinctrl` debugfs directory name stands for,
/// `None` for a directory of another kind.
pub fn pinctrl_name(name: &str) -> (r: Option<String>)
    ensures
        text_of(r) == pinctrl_of(name@),
{
    if !same_text(before_char(name, '@'), "soc:pinctrl") {
        return None;
    }
    let mut r = String::from_str("pinctrl@");
    if find_char(name, '@') < name.unicode_len() {
        r.append(before_char(after_char(name, '@'), '@'));
    } else {
        r.append("???");
    }
    Some(r)
}

/// What a line of a `pinconf-pins` file says of the transmit clock pin.
#[derive(Debug, Clone, Copy, PartialEq, Eq, Structural)]
pub enum PinconfLine {
    /// The line is not about the pin, or does not name a GPIO.
    Other,
    /// The line is about the pin but holds no `(`.
    Malformed,
    /// The pin is line `line` of GPIO bank `bank`.
    Pin { bank: char, line: u8 },
}

/// The pin token of a line: after the first `(`, up to the next `(` or `)`.
pub open spec fn pin_token(line: Seq<char>) -> Seq<char> {
    before(before(after(line, '('), '('), ')')
}

/// What a `pinconf-pins` line says of the pin named `needle`: a token
/// `P<bank><line>` names its GPIO.
pub open spec fn pinconf_of(line: Seq<char>, needle: Seq<char>) -> PinconfLine {
    let t = pin_token(line);
    if !contains_text(line, needle) {
        PinconfLine::Other
    } else if char_pos(line, '(') == line.len() {
        PinconfLine::Malformed
    } else if t.len() >= 2 && t[0] == 'P' && (unsigned_of(t.subrange(2, t.len() as int), 10) matches Some(
        v,
    ) && v <= 255) {
        PinconfLine::Pin { bank: t[1], line: unsigned_of(t.subrange(2, t.len() as int), 10)->Some_0 as u8 }
    } else {
        PinconfLine::Other
    }
}

/// Reads a line of a `pinconf-pins` file, looking for the pin named
/// `needle`.
pub fn parse_pinconf_line(line: &str, needle: &str) -> (r: PinconfLine)
    ensures
        r == pinconf_of(line@, needle@),
{
    if !contains(line, needle) {
        return PinconfLine::Other;
    }
    if find_char(line, '(') == line.unicode_len() {
        return PinconfLine::Malformed;
    }
    let token = before_char(before_char(after_char(line, '('), '('), ')');
    let n = token.unicode_len();
    if n < 2 || token.get_char(0) != 'P' {
        return PinconfLine::Other;
    }
    let bank = token.get_char(1);
    match parse_unsigned(token.substring_char(2, n), 10, 255) {
        Some(v) => PinconfLine::Pin { bank, line: v as u8 },
        None => PinconfLine::Other,
    }
}

/// A 4-bit field of a 32-bit register in physical memory.
#[derive(Debug, Clone, Copy, PartialEq, Eq, Structural)]
pub struct Address {
    /// Physical address of the register.
    pub base: u64,
    /// Bit offset of the field.
    pub offset: u32,
}

/// Offset of the delay register within a GPIO bank's registers.
pub const DELAY_REGISTER_OFFSET: u64 = 0x40;

/// Largest GPIO line whose field offset (four bits per line) fits in a byte.
pub const MAX_LINE: u8 = 63;

/// The delay field of GPIO line `line`, given the device-tree symbol of its
/// bank (a node path ending in `@<hex address>`, possibly NUL-terminated).
/// The field's bit offset is four times the line; whether the register can
/// hold it (offset at most 28) is checked where the register is mapped.
/// `None` when the symbol holds no address, when the register address
/// overflows, or when the offset does not fit in a byte (line above 63).
pub open spec fn address_of(symbol: Seq<char>, line: u8) -> Option<Address> {
    let hex = unsigned_of(last_segment(trim_end(symbol, '\0'), '@'), 16);
    if hex matches Some(v) && v + DELAY_REGISTER_OFFSET <= u64::MAX && line <= MAX_LINE {
        Some(Address { base: (hex->Some_0 + DELAY_REGISTER_OFFSET) as u64, offset: (line * 4) as u32 })
    } else {
        None
    }
}

/// Locates the delay field of GPIO line `line` from the symbol of its bank.
pub fn get_address(symbol: &str, line: u8) -> (r: Option<Address>)
    ensures
        r == address_of(symbol@, line),
{
    let end = find_suffix_start(symbol, '\0', true);
    let trimmed = symbol.substring_char(0, end);
    let start = find_suffix_start(trimmed, '@', false);
    let segment = trimmed.substring_char(start, trimmed.unicode_len());
    match parse_unsigned(segment, 16, u64::MAX - DELAY_REGISTER_OFFSET) {
        Some(v) => if line <= MAX_LINE {
            Some(Address { base: v + DELAY_REGISTER_OFFSET, offset: (line as u32) * 4 })
        } else {
            None
        },
        None => {
            None
        },
    }
}

} // verus!

verus! {

/// The upper-case form of a string, character by character.
pub uninterp spec fn upper_of(s: Seq<char>) -> Seq<char>;

/// Relies on `str::to_uppercase`: the upper-case form of the characters of
/// `s`, which depends on them alone.
#[verifier::external_body]
fn uppercase(s: &str) -> (r: String)
    ensures
        r@ == upper_of(s@),
{
    s.to_uppercase()
}

/// The name of the transmit clock pin of a device in `pinconf-pins` files:
/// its device-tree name in upper case, then `_RGMII_GTX_CLK`.
pub fn gtx_clock_pin(dt_name: &str) -> (r: String)
    ensures
        r@ == upper_of(dt_name@) + "_RGMII_GTX_CLK"@,
{
    let mut r = uppercase(dt_name);
    r.append("_RGMII_GTX_CLK");
    r
}

/// What the lines of a `pinconf-pins` file say of the pin named `needle`:
/// the first line that is not [`PinconfLine::Other`] decides, and without
/// one the answer is `Other`.
pub fn find_gpio(lines: &Vec<String>, needle: &str) -> (r: PinconfLine)
    ensures
        (forall|i: int| 0 <= i < lines@.len() ==> #[trigger] pinconf_of(lines@[i]@, needle@) == PinconfLine::Other)
            ==> r == PinconfLine::Other,
        forall|i: int|
            0 <= i < lines@.len() && #[trigger] pinconf_of(lines@[i]@, needle@) != PinconfLine::Other && (
            forall|j: int| 0 <= j < i ==> pinconf_of(lines@[j]@, needle@) == PinconfLine::Other) ==> r
                == pinconf_of(lines@[i]@, needle@),
{
    let mut i: usize = 0;
    while i < lines.len()
        invariant
            i <= lines@.len(),
            forall|j: int| 0 <= j < i ==> #[trigger] pinconf_of(lines@[j]@, needle@) == PinconfLine::Other,
        decreases lines.len() - i,
    {
        let r = parse_pinconf_line(lines[i].as_str(), needle);
        if r != PinconfLine::Other {
            return r;
        }
        i = i + 1;
    }
    PinconfLine::Other
}

} // verus!
