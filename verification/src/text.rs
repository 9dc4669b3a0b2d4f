//! Text as the panel shows and stores it: decimal numbers, UTF-16 and the
//! bytes of a registry string.
use vstd::prelude::*;

verus! {

/// The UTF-16 code units of one character.
pub open spec fn utf16_char(c: char) -> Seq<u16> {
    let n = c as int;
    if n < 0x1_0000 {
        seq![n as u16]
    } else {
        seq![
            (0xd800 + (n - 0x1_0000) / 0x400) as u16,
            (0xdc00 + (n - 0x1_0000) % 0x400) as u16,
        ]
    }
}

/// The UTF-16 code units of a text.
pub open spec fn utf16(text: Seq<char>) -> Seq<u16>
    decreases text.len(),
{
    if text.len() == 0 {
        Seq::empty()
    } else {
        utf16(text.drop_last()) + utf16_char(text.last())
    }
}

fn append_units(units: &mut Vec<u16>, c: char)
    ensures
        final(units)@ == old(units)@ + utf16_char(c),
{
    let n: u32 = c as u32;
    if n < 0x1_0000 {
        units.push(n as u16);
    } else {
        let v: u32 = n - 0x1_0000;
        units.push((0xd800 + v / 0x400) as u16);
        units.push((0xdc00 + v % 0x400) as u16);
    }
    assert(units@ =~= old(units)@ + utf16_char(c));
}

/// Encodes a text as UTF-16, with no terminator.
pub fn wide(s: &str) -> (units: Vec<u16>)
    ensures
        units@ == utf16(s@),
{
    let mut units: Vec<u16> = Vec::new();
    for c in it: s.chars()
        invariant
            it.seq() == s@,
            units@ == utf16(s@.take(it.index() as int)),
    {
        let ghost i = it.index() as int;
        assert(s@.take(i + 1).drop_last() == s@.take(i));
        append_units(&mut units, c);
    }
    assert(s@.take(s@.len() as int) == s@);
    units
}

/// Encodes a text as UTF-16, followed by a terminating zero.
pub fn wide_null(s: &str) -> (units: Vec<u16>)
    ensures
        units@ == utf16(s@).push(0),
{
    let mut units: Vec<u16> = wide(s);
    units.push(0);
    units
}

/// Code units as bytes, the low byte of each first.
pub open spec fn le_bytes(units: Seq<u16>) -> Seq<u8> {
    Seq::new(
        2 * units.len(),
        |i: int|
            if i % 2 == 0 {
                (units[i / 2] % 0x100) as u8
            } else {
                (units[i / 2] / 0x100) as u8
            },
    )
}

/// The bytes of a registry string value: the text in UTF-16 with a terminating
/// zero, low byte first.
pub fn reg_sz_bytes(s: &str) -> (bytes: Vec<u8>)
    ensures
        bytes@ == le_bytes(utf16(s@).push(0)),
{
    let units: Vec<u16> = wide_null(s);
    let mut bytes: Vec<u8> = Vec::new();
    for i in 0..units.len()
        invariant
            bytes@ == le_bytes(units@.take(i as int)),
    {
        let unit: u16 = units[i];
        bytes.push((unit % 0x100) as u8);
        bytes.push((unit / 0x100) as u8);
        assert(bytes@ =~= le_bytes(units@.take(i + 1)));
    }
    assert(units@.take(units@.len() as int) == units@);
    bytes
}

/// The character of a decimal digit.
pub open spec fn digit_char(d: nat) -> char {
    (0x30 + d) as char
}

/// A number in decimal, with no leading zeros.
pub open spec fn decimal(n: nat) -> Seq<char>
    decreases n,
{
    if n < 10 {
        seq![digit_char(n)]
    } else {
        decimal(n / 10).push(digit_char(n % 10))
    }
}

fn append_digit(s: &mut String, d: u64)
    requires
        d < 10,
    ensures
        final(s)@ == old(s)@.push(digit_char(d as nat)),
{
    proof {
        reveal_strlit("0");
        reveal_strlit("1");
        reveal_strlit("2");
        reveal_strlit("3");
        reveal_strlit("4");
        reveal_strlit("5");
        reveal_strlit("6");
        reveal_strlit("7");
        reveal_strlit("8");
        reveal_strlit("9");
    }
    let digit: &str = match d {
        0 => "0",
        1 => "1",
        2 => "2",
        3 => "3",
        4 => "4",
        5 => "5",
        6 => "6",
        7 => "7",
        8 => "8",
        _ => "9",
    };
    assert(digit@ =~= seq![digit_char(d as nat)]);
    s.append(digit);
    assert(s@ =~= old(s)@.push(digit_char(d as nat)));
}

fn append_decimal(s: &mut String, n: u64)
    ensures
        final(s)@ == old(s)@ + decimal(n as nat),
    decreases n,
{
    if n < 10 {
        append_digit(s, n);
        assert(s@ =~= old(s)@ + decimal(n as nat));
    } else {
        append_decimal(s, n / 10);
        append_digit(s, n % 10);
        assert(s@ =~= old(s)@ + decimal(n as nat));
    }
}

/// The name shown for the monitors of the display at `idx`, counted from 1.
pub fn monitor_name(idx: usize) -> (name: String)
    requires
        idx < usize::MAX,
    ensures
        name@ == "Monitor "@ + decimal((idx + 1) as nat),
{
    let mut name: String = String::new();
    name.append("Monitor ");
    assert(name@ =~= "Monitor "@);
    append_decimal(&mut name, (idx + 1) as u64);
    name
}

/// A brightness as shown on the panel.
pub fn percent(bri: u32) -> (text: String)
    ensures
        text@ == decimal(bri as nat) + "%"@,
{
    let mut text: String = String::new();
    append_decimal(&mut text, bri as u64);
    assert(text@ =~= decimal(bri as nat));
    text.append("%");
    text
}

/// Encoding loses nothing: texts with the same code units are the same text.
pub proof fn law_utf16_injective(a: Seq<char>, b: Seq<char>)
    requires
        utf16(a) == utf16(b),
    ensures
        a == b,
    decreases a.len(),
{
    if a.len() == 0 || b.len() == 0 {
        assert(a.len() > 0 ==> utf16(a).len() > 0);
        assert(b.len() > 0 ==> utf16(b).len() > 0);
        assert(a =~= b);
    } else {
        let ua = utf16_char(a.last());
        let ub = utf16_char(b.last());
        let ra = utf16(a.drop_last());
        let rb = utf16(b.drop_last());
        let u = utf16(a);
        assert(u == ra + ua && u == rb + ub);
        assert(ua.last() == u.last() && ub.last() == u.last());
        lemma_utf16_char_shape(a.last());
        lemma_utf16_char_shape(b.last());
        assert(ua.len() == ub.len());
        assert(ra =~= u.take(u.len() - ua.len()));
        assert(rb =~= u.take(u.len() - ub.len()));
        assert(ua =~= u.skip(u.len() - ua.len()));
        assert(ub =~= u.skip(u.len() - ub.len()));
        assert(ua[0] == ub[0]);
        assert(a.last() == b.last());
        law_utf16_injective(a.drop_last(), b.drop_last());
        assert(a =~= a.drop_last().push(a.last()));
        assert(b =~= b.drop_last().push(b.last()));
    }
}

/// The code units of one text after another are those of both joined.
pub proof fn law_utf16_of_joined(a: Seq<char>, b: Seq<char>)
    ensures
        utf16(a + b) == utf16(a) + utf16(b),
    decreases b.len(),
{
    if b.len() == 0 {
        assert(a + b =~= a);
        assert(utf16(a) + utf16(b) =~= utf16(a));
    } else {
        law_utf16_of_joined(a, b.drop_last());
        assert((a + b).drop_last() =~= a + b.drop_last());
        assert((a + b).last() == b.last());
        assert(utf16(a + b) =~= utf16(a) + utf16(b));
    }
}

/// The text that code units stand for: a unit from the range of low surrogates ends
/// a pair, any other stands for itself.
pub open spec fn utf16_decoded(units: Seq<u16>) -> Seq<char>
    decreases units.len(),
{
    if units.len() == 0 {
        Seq::empty()
    } else {
        let last = units.last();
        if 0xdc00 <= last < 0xe000 && units.len() >= 2 {
            let high = units[units.len() - 2];
            utf16_decoded(units.take(units.len() - 2)).push(
                (0x1_0000 + (high - 0xd800) * 0x400 + (last - 0xdc00)) as char,
            )
        } else {
            utf16_decoded(units.drop_last()).push(last as char)
        }
    }
}

/// A text reads back from its code units.
pub proof fn law_utf16_reads_back(text: Seq<char>)
    ensures
        utf16_decoded(utf16(text)) == text,
    decreases text.len(),
{
    if text.len() > 0 {
        let init = text.drop_last();
        let c = text.last();
        let units = utf16(text);
        law_utf16_reads_back(init);
        lemma_utf16_char_shape(c);
        let own = utf16_char(c);
        assert(units == utf16(init) + own);
        assert(units.last() == own.last());
        if own.len() == 2 {
            let high = units[units.len() - 2];
            assert(high == own[0] && units.last() == own[1]);
            assert((0x1_0000 + (high - 0xd800) * 0x400 + (units.last() - 0xdc00)) as char == c);
            assert(units.take(units.len() - 2) =~= utf16(init));
        } else {
            assert(units.last() as char == c);
            assert(units.drop_last() =~= utf16(init));
        }
        assert(utf16_decoded(units) == init.push(c));
        assert(init.push(c) =~= text);
    }
}

/// A character takes one unit or a surrogate pair, and the last unit tells which.
proof fn lemma_utf16_char_shape(c: char)
    ensures
        ({
            let u = utf16_char(c);
            let n = c as int;
            &&& u.len() == 1 || u.len() == 2
            &&& u.len() == 2 <==> 0xdc00 <= u.last() < 0xe000
            &&& u.len() == 1 ==> n == u[0]
            &&& u.len() == 1 ==> u[0] as char == c
            &&& u.len() == 2 ==> n == 0x1_0000 + (u[0] - 0xd800) * 0x400 + (u[1] - 0xdc00)
            &&& u.len() == 2 ==> (0x1_0000 + (u[0] - 0xd800) * 0x400 + (u[1] - 0xdc00)) as char
                == c
        }),
{
}

/// The bytes of a registry string are its code units and a terminating zero:
/// each unit reads back from its two bytes, and the last two bytes are zero.
pub proof fn law_registry_string(text: Seq<char>)
    ensures
        ({
            let units = utf16(text);
            let bytes = le_bytes(units.push(0));
            &&& bytes.len() == 2 * units.len() + 2
            &&& forall|i: int|
                0 <= i < units.len() ==> #[trigger] units[i] == bytes[2 * i] + 0x100 * bytes[2 * i
                    + 1]
            &&& bytes[bytes.len() - 2] == 0
            &&& bytes[bytes.len() - 1] == 0
        }),
{
    let units = utf16(text).push(0);
    let bytes = le_bytes(units);
    assert forall|i: int| 0 <= i < units.len() implies #[trigger] units[i] == bytes[2 * i] + 0x100
        * bytes[2 * i + 1] by {
        assert((2 * i) / 2 == i && (2 * i) % 2 == 0);
        assert((2 * i + 1) / 2 == i && (2 * i + 1) % 2 == 1);
    }
    let last = units.len() - 1;
    assert(units[last] == 0);
    assert forall|i: int| 0 <= i < utf16(text).len() implies #[trigger] utf16(text)[i] == bytes[2
        * i] + 0x100 * bytes[2 * i + 1] by {
        assert(utf16(text)[i] == units[i]);
    }
}

/// Two texts stored as the same registry bytes are the same text.
pub proof fn law_registry_string_injective(a: Seq<char>, b: Seq<char>)
    requires
        le_bytes(utf16(a).push(0)) == le_bytes(utf16(b).push(0)),
    ensures
        a == b,
{
    law_registry_string(a);
    law_registry_string(b);
    let bytes = le_bytes(utf16(a).push(0));
    assert(utf16(a).len() == utf16(b).len());
    assert forall|i: int| 0 <= i < utf16(a).len() implies utf16(a)[i] == utf16(b)[i] by {
        assert(utf16(a)[i] == bytes[2 * i] + 0x100 * bytes[2 * i + 1]);
        assert(utf16(b)[i] == bytes[2 * i] + 0x100 * bytes[2 * i + 1]);
    }
    assert(utf16(a) =~= utf16(b));
    law_utf16_injective(a, b);
}

/// The number that a row of decimal digits stands for.
pub open spec fn decimal_value(digits: Seq<char>) -> int
    decreases digits.len(),
{
    if digits.len() == 0 {
        0
    } else {
        decimal_value(digits.drop_last()) * 10 + (digits.last() as int - 0x30)
    }
}

/// A number written in decimal reads back as itself; every character is a
/// digit, and the first is 0 only for 0.
pub proof fn law_decimal_reads_back(n: nat)
    ensures
        decimal_value(decimal(n)) == n,
        decimal(n).len() > 0,
        forall|i: int| 0 <= i < decimal(n).len() ==> '0' <= #[trigger] decimal(n)[i] <= '9',
        decimal(n)[0] == '0' <==> n == 0,
    decreases n,
{
    if n < 10 {
        assert(decimal(n).drop_last() =~= Seq::<char>::empty());
        assert(decimal_value(decimal(n).drop_last()) == 0);
    } else {
        law_decimal_reads_back(n / 10);
        assert(decimal(n).drop_last() =~= decimal(n / 10));
        assert(decimal(n)[0] == decimal(n / 10)[0]);
    }
}

/// A character below 0x10000 is its own code unit; any other is a high surrogate
/// with its upper ten bits and a low one with its lower ten, counted from 0x10000.
pub proof fn law_utf16_of_char(c: char)
    ensures
        ({
            let u = utf16(seq![c]);
            let n = c as int;
            &&& n < 0x1_0000 ==> u.len() == 1 && u[0] == n
            &&& n >= 0x1_0000 ==> {
                &&& u.len() == 2
                &&& 0xd800 <= u[0] < 0xdc00
                &&& 0xdc00 <= u[1] < 0xe000
                &&& n - 0x1_0000 == (u[0] - 0xd800) * 0x400 + (u[1] - 0xdc00)
            }
        }),
        utf16(Seq::empty()).len() == 0,
{
    let one = seq![c];
    assert(one.drop_last() =~= Seq::empty());
    assert(utf16(one.drop_last()) =~= Seq::empty());
    assert(utf16(one) =~= utf16_char(c));
}

/// A number below ten is one digit; any other is its tens followed by its units.
pub proof fn law_decimal_digits(n: nat)
    ensures
        n < 10 ==> decimal(n).len() == 1 && decimal(n)[0] as int == 0x30 + n,
        n >= 10 ==> decimal(n) == decimal(n / 10) + decimal(n % 10),
{
    if n >= 10 {
        assert(decimal(n) =~= decimal(n / 10) + decimal(n % 10));
    }
}

} // verus!
