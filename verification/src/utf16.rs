//! Text in UTF-16, the encoding of Windows.
use crate::text::to_chars;
use vstd::prelude::*;
use vstd::string::*;
use vstd::utf8::*;

verus! {

/// The character that stands for a surrogate that is not one of a pair.
pub const REPLACEMENT: char = '\u{fffd}';

/// The UTF-16 units of a character: itself, or two surrogates.
pub open spec fn units_of_char(c: char) -> Seq<u16> {
    let code = c as u32;
    if code < 0x10000 {
        seq![code as u16]
    } else {
        seq![
            (0xd800 + (code - 0x10000) / 0x400) as u16,
            (0xdc00 + (code - 0x10000) % 0x400) as u16,
        ]
    }
}

/// The UTF-16 units of a text.
pub open spec fn units_of(chars: Seq<char>) -> Seq<u16>
    decreases chars.len(),
{
    if chars.len() == 0 {
        Seq::empty()
    } else {
        units_of(chars.drop_last()) + units_of_char(chars.last())
    }
}

/// Whether a unit is the first one of a pair.
pub open spec fn high_surrogate(unit: u16) -> bool {
    0xd800 <= unit <= 0xdbff
}

/// Whether a unit is the second one of a pair.
pub open spec fn low_surrogate(unit: u16) -> bool {
    0xdc00 <= unit <= 0xdfff
}

/// The character of a pair of surrogates.
pub open spec fn paired(high: u16, low: u16) -> char {
    (0x10000 + (high - 0xd800) * 0x400 + (low - 0xdc00)) as u32 as char
}

/// The characters that units stand for, and nothing for each surrogate that is not one
/// of a pair.
pub open spec fn chars_of(units: Seq<u16>) -> Seq<Option<char>>
    decreases units.len(),
{
    if units.len() == 0 {
        Seq::empty()
    } else if !high_surrogate(units[0]) && !low_surrogate(units[0]) {
        seq![Some(units[0] as u32 as char)] + chars_of(units.skip(1))
    } else if high_surrogate(units[0]) && units.len() > 1 && low_surrogate(units[1]) {
        seq![Some(paired(units[0], units[1]))] + chars_of(units.skip(2))
    } else {
        seq![None::<char>] + chars_of(units.skip(1))
    }
}

/// The text that units stand for, with a replacement for each surrogate that is not
/// one of a pair.
pub open spec fn lossy_text(units: Seq<u16>) -> Seq<char> {
    chars_of(units).map_values(
        |c: Option<char>|
            match c {
                Some(c) => c,
                None => REPLACEMENT,
            },
    )
}

/// Whether all surrogates are paired.
pub open spec fn well_paired(units: Seq<u16>) -> bool {
    forall|i: int| 0 <= i < chars_of(units).len() ==> (#[trigger] chars_of(units)[i]) is Some
}

/// The UTF-16 units of a text.
pub fn encode_utf16(value: &str) -> (res: Vec<u16>)
    ensures
        res@ == units_of(value@),
{
    let chars = to_chars(value);
    let mut units: Vec<u16> = Vec::new();
    let mut i: usize = 0;
    assert(units@ =~= units_of(chars@.take(0)));
    while i < chars.len()
        invariant
            i <= chars@.len(),
            units@ == units_of(chars@.take(i as int)),
        decreases chars@.len() - i,
    {
        let c = chars[i];
        let code: u32 = c as u32;
        let ghost before = units@;
        proof {
            char_is_scalar(c);
        }
        if code < 0x10000 {
            units.push(code as u16);
        } else {
            let offset: u32 = code - 0x10000;
            units.push((0xd800 + offset / 0x400) as u16);
            units.push((0xdc00 + offset % 0x400) as u16);
        }
        assert(units@ =~= before + units_of_char(c));
        assert(chars@.take(i + 1).drop_last() =~= chars@.take(i as int));
        i = i + 1;
    }
    assert(chars@.take(i as int) =~= chars@);
    units
}

/// The UTF-16 units of a text with a NUL behind them.
pub fn wide_null(value: &str) -> (res: Vec<u16>)
    ensures
        res@ == units_of(value@).push(0),
{
    let mut units = encode_utf16(value);
    units.push(0);
    units
}

/// The next character that units stand for, or nothing for a surrogate that is not one
/// of a pair, and the number of units that it takes.
fn decode_at(units: &[u16], at: usize) -> (res: (Option<char>, usize))
    requires
        at < units@.len(),
    ensures
        1 <= res.1 <= 2,
        at + res.1 <= units@.len(),
        chars_of(units@.skip(at as int)) == seq![res.0] + chars_of(units@.skip(at + res.1)),
{
    let total: usize = units.len();
    let unit = units[at];
    let ghost rest = units@.skip(at as int);
    assert(rest[0] == unit);
    assert(rest.skip(1) =~= units@.skip(at + 1));
    assert(rest.len() > 1 ==> rest.skip(2) =~= units@.skip(at + 2));
    if unit < 0xd800 || unit > 0xdfff {
        let c = char::from_u32(unit as u32);
        proof {
            char_u32_cast(c->Some_0, unit as u32);
        }
        (c, 1)
    } else if unit <= 0xdbff && at + 1 < total && units[at + 1] >= 0xdc00 && units[at + 1]
        <= 0xdfff {
        let low = units[at + 1];
        assert(rest[1] == low);
        let code: u32 = 0x10000 + (unit as u32 - 0xd800) * 0x400 + (low as u32 - 0xdc00);
        let c = char::from_u32(code);
        proof {
            char_u32_cast(c->Some_0, code);
        }
        (c, 2)
    } else {
        assert(rest.len() > 1 ==> rest[1] == units@[at + 1]);
        (None, 1)
    }
}

/// The text that units stand for, with a replacement for each surrogate that is not
/// one of a pair.
pub fn decode_utf16_lossy(units: &[u16]) -> (res: String)
    ensures
        res@ == lossy_text(units@),
{
    let mut out = String::new();
    let mut at: usize = 0;
    assert(units@.skip(0) =~= units@);
    assert(out@ + lossy_text(units@) =~= lossy_text(units@));
    while at < units.len()
        invariant
            at <= units@.len(),
            out@ + lossy_text(units@.skip(at as int)) == lossy_text(units@),
        decreases units@.len() - at,
    {
        let (c, width) = decode_at(units, at);
        let shown = match c {
            Some(c) => c,
            None => REPLACEMENT,
        };
        let ghost before = out@;
        out.push(shown);
        proof {
            let rest = lossy_text(units@.skip(at as int));
            let next = lossy_text(units@.skip(at + width));
            assert(rest =~= seq![shown] + next);
            assert(before.push(shown) + next =~= before + rest);
        }
        at = at + width;
    }
    assert(units@.skip(at as int) =~= Seq::<u16>::empty());
    assert(out@ + lossy_text(Seq::<u16>::empty()) =~= out@);
    out
}

/// The text that units stand for, where all surrogates are paired.
pub fn decode_utf16(units: &[u16]) -> (res: Option<String>)
    ensures
        res is Some <==> well_paired(units@),
        res matches Some(s) ==> s@ == lossy_text(units@),
{
    let mut at: usize = 0;
    assert(units@.skip(0) =~= units@);
    let ghost all = chars_of(units@);
    let ghost mut done = Seq::<Option<char>>::empty();
    assert(done + all =~= all);
    while at < units.len()
        invariant
            at <= units@.len(),
            all == chars_of(units@),
            done + chars_of(units@.skip(at as int)) == all,
            forall|i: int| 0 <= i < done.len() ==> (#[trigger] done[i]) is Some,
        decreases units@.len() - at,
    {
        let (c, width) = decode_at(units, at);
        proof {
            let rest = chars_of(units@.skip(at + width));
            assert(done + (seq![c] + rest) =~= done.push(c) + rest);
            assert(all[done.len() as int] == c);
        }
        if c.is_none() {
            return None;
        }
        proof {
            done = done.push(c);
        }
        at = at + width;
    }
    assert(units@.skip(at as int) =~= Seq::<u16>::empty());
    assert(done =~= all);
    Some(decode_utf16_lossy(units))
}

/// The units before the first NUL.
pub open spec fn up_to_nul(units: Seq<u16>) -> Seq<u16>
    decreases units.len(),
{
    if units.len() == 0 || units[0] == 0 {
        Seq::empty()
    } else {
        seq![units[0]] + up_to_nul(units.skip(1))
    }
}

proof fn lemma_up_to_nul(units: Seq<u16>, at: int)
    requires
        0 <= at <= units.len(),
        at < units.len() ==> units[at] == 0,
        forall|i: int| 0 <= i < at ==> units[i] != 0,
    ensures
        up_to_nul(units) == units.take(at),
    decreases units.len(),
{
    if units.len() == 0 || at == 0 {
        assert(units.take(at) =~= Seq::<u16>::empty());
    } else {
        assert(units[0] != 0);
        let rest = units.skip(1);
        assert forall|i: int| 0 <= i < at - 1 implies rest[i] != 0 by {
            assert(rest[i] == units[i + 1]);
        }
        lemma_up_to_nul(rest, at - 1);
        assert(seq![units[0]] + rest.take(at - 1) =~= units.take(at));
    }
}

/// The text before the first NUL of a buffer.
pub fn nul_terminated_utf16_to_string(buffer: &[u16]) -> (res: String)
    ensures
        res@ == lossy_text(up_to_nul(buffer@)),
{
    let mut units: Vec<u16> = Vec::new();
    let mut i: usize = 0;
    while i < buffer.len() && buffer[i] != 0
        invariant
            i <= buffer@.len(),
            units@ == buffer@.take(i as int),
            forall|j: int| 0 <= j < i ==> buffer@[j] != 0,
        decreases buffer@.len() - i,
    {
        units.push(buffer[i]);
        assert(units@ =~= buffer@.take(i + 1));
        i = i + 1;
    }
    proof {
        lemma_up_to_nul(buffer@, i as int);
    }
    decode_utf16_lossy(units.as_slice())
}

/// Units of one character decode to it, whatever follows them.
proof fn lemma_decode_char(c: char, rest: Seq<u16>)
    ensures
        chars_of(units_of_char(c) + rest) == seq![Some(c)] + chars_of(rest),
{
    char_is_scalar(c);
    let code = c as u32;
    let units = units_of_char(c);
    let all = units + rest;
    if code < 0x10000 {
        assert(all[0] == code as u16);
        assert(all.skip(1) =~= rest);
        char_u32_cast(c, all[0] as u32);
    } else {
        let offset = code - 0x10000;
        assert(all[0] == 0xd800 + offset / 0x400);
        assert(all[1] == 0xdc00 + offset % 0x400);
        assert(all.skip(2) =~= rest);
        assert((offset / 0x400) * 0x400 + offset % 0x400 == offset);
        char_u32_cast(c, (0x10000 + (all[0] - 0xd800) * 0x400 + (all[1] - 0xdc00)) as u32);
    }
}

proof fn lemma_decode_text(chars: Seq<char>, rest: Seq<u16>)
    ensures
        chars_of(units_of(chars) + rest) == chars.map_values(|c: char| Some(c)) + chars_of(rest),
    decreases chars.len(),
{
    if chars.len() == 0 {
        assert(units_of(chars) + rest =~= rest);
        assert(chars.map_values(|c: char| Some(c)) + chars_of(rest) =~= chars_of(rest));
    } else {
        let front = chars.drop_last();
        let last = chars.last();
        let behind = units_of_char(last) + rest;
        assert(units_of(chars) + rest =~= units_of(front) + behind);
        lemma_decode_text(front, behind);
        lemma_decode_char(last, rest);
        assert(front.map_values(|c: char| Some(c)) + (seq![Some(last)] + chars_of(rest))
            =~= chars.map_values(|c: char| Some(c)) + chars_of(rest));
    }
}

/// Text is read back from its units, strictly and leniently.
pub proof fn law_utf16_reads_back(chars: Seq<char>)
    ensures
        well_paired(units_of(chars)),
        lossy_text(units_of(chars)) == chars,
{
    lemma_decode_text(chars, Seq::empty());
    let units = units_of(chars);
    assert(units + Seq::<u16>::empty() =~= units);
    assert(chars_of(units) =~= chars.map_values(|c: char| Some(c)));
    assert(lossy_text(units) =~= chars);
}

proof fn lemma_units_without_nul(chars: Seq<char>)
    requires
        forall|i: int| 0 <= i < chars.len() ==> chars[i] != '\0',
    ensures
        forall|i: int| 0 <= i < units_of(chars).len() ==> units_of(chars)[i] != 0,
    decreases chars.len(),
{
    if chars.len() > 0 {
        let front = chars.drop_last();
        let last: char = chars.last();
        assert(last != '\0');
        char_is_scalar(last);
        if last as u32 == 0 {
            char_u32_cast(last, 0);
            char_u32_cast('\0', 0);
        }
        assert forall|i: int| 0 <= i < front.len() implies front[i] != '\0' by {
            assert(front[i] == chars[i]);
        }
        lemma_units_without_nul(front);
        let before = units_of(front);
        let added = units_of_char(last);
        assert forall|i: int| 0 <= i < units_of(chars).len() implies units_of(chars)[i] != 0 by {
            if i < before.len() {
                assert(units_of(chars)[i] == before[i]);
            } else {
                assert(units_of(chars)[i] == added[i - before.len()]);
            }
        }
    }
}

/// Text that holds no NUL is read back from a buffer that ends with one, whatever
/// stands behind that.
pub proof fn law_nul_terminated_reads_back(chars: Seq<char>, behind: Seq<u16>)
    requires
        forall|i: int| 0 <= i < chars.len() ==> chars[i] != '\0',
    ensures
        lossy_text(up_to_nul(units_of(chars).push(0) + behind)) == chars,
{
    let units = units_of(chars);
    let buffer = units.push(0) + behind;
    lemma_units_without_nul(chars);
    assert forall|i: int| 0 <= i < units.len() implies buffer[i] != 0 by {
        assert(buffer[i] == units[i]);
    }
    lemma_up_to_nul(buffer, units.len() as int);
    assert(buffer.take(units.len() as int) =~= units);
    law_utf16_reads_back(chars);
}

/// A character of the basic plane is one unit of its code. Any other is a pair of surrogates
/// that hold ten bits each of what its code is beyond that plane.
pub proof fn law_units_of_characters(c: char, before: Seq<char>)
    ensures
        ({
            let units = units_of(before.push(c)).skip(units_of(before).len() as int);
            let code = c as u32;
            &&& units_of(before.push(c)).len() == units_of(before).len() + units.len()
            &&& units_of(before.push(c)).take(units_of(before).len() as int) == units_of(before)
            &&& code < 0x1_0000 ==> units.len() == 1 && units[0] == code
            &&& code >= 0x1_0000 ==> units.len() == 2 && 0xd800 <= units[0] <= 0xdbff && 0xdc00
                <= units[1] <= 0xdfff && code == 0x1_0000 + (units[0] - 0xd800) * 0x400 + (units[1]
                - 0xdc00)
        }),
        units_of(Seq::empty()) == Seq::<u16>::empty(),
{
    char_is_scalar(c);
    let code = c as u32;
    assert(before.push(c).drop_last() =~= before);
    let all = units_of(before.push(c));
    let units = all.skip(units_of(before).len() as int);
    assert(units =~= units_of_char(c));
    assert(all.take(units_of(before).len() as int) =~= units_of(before));
    if code >= 0x1_0000 {
        let offset = code - 0x1_0000;
        assert((offset / 0x400) * 0x400 + offset % 0x400 == offset);
    }
}

/// Units are read from the front: one that is no surrogate is its character, two surrogates
/// of a pair are one, and a surrogate that is not one of a pair is shown as the replacement.
pub proof fn law_units_are_read_from_the_front(unit: u16, rest: Seq<u16>)
    ensures
        ({
            let all = seq![unit] + rest;
            let surrogate = 0xd800 <= unit <= 0xdfff;
            let pairs = 0xd800 <= unit <= 0xdbff && rest.len() > 0 && 0xdc00 <= rest[0] <= 0xdfff;
            &&& !surrogate ==> lossy_text(all) == seq![unit as u32 as char] + lossy_text(rest)
            &&& pairs ==> lossy_text(all).len() == 1 + lossy_text(rest.skip(1)).len()
                && lossy_text(all)[0] as u32 == 0x1_0000 + (unit - 0xd800) * 0x400 + (rest[0]
                - 0xdc00) && lossy_text(all).skip(1) == lossy_text(rest.skip(1))
            &&& surrogate && !pairs ==> lossy_text(all) == seq!['\u{fffd}'] + lossy_text(rest)
            &&& surrogate && !pairs ==> !well_paired(all)
        }),
        lossy_text(Seq::empty()) == Seq::<char>::empty(),
{
    let all = seq![unit] + rest;
    assert(all[0] == unit);
    assert(all.skip(1) =~= rest);
    let surrogate = 0xd800 <= unit <= 0xdfff;
    let pairs = 0xd800 <= unit <= 0xdbff && rest.len() > 0 && 0xdc00 <= rest[0] <= 0xdfff;
    if !surrogate {
        assert(lossy_text(all) =~= seq![unit as u32 as char] + lossy_text(rest));
    } else if pairs {
        assert(all[1] == rest[0]);
        assert(all.skip(2) =~= rest.skip(1));
        let low = rest[0];
        let code = (0x1_0000 + (unit - 0xd800) * 0x400 + (low - 0xdc00)) as u32;
        assert(is_scalar(code));
        assert(lossy_text(all)[0] == code as char);
        assert((code as char) as u32 == code);
        assert(lossy_text(all).skip(1) =~= lossy_text(rest.skip(1)));
    } else {
        assert(rest.len() > 0 ==> all[1] == rest[0]);
        assert(lossy_text(all) =~= seq!['\u{fffd}'] + lossy_text(rest));
        assert(chars_of(all)[0] is None);
    }
    assert(lossy_text(Seq::empty()) =~= Seq::<char>::empty());
}

/// What ends a buffer is its first NUL: the units before it count, and all of them where
/// there is none.
pub proof fn law_first_nul_ends(units: Seq<u16>, behind: Seq<u16>)
    requires
        forall|i: int| 0 <= i < units.len() ==> units[i] != 0,
    ensures
        up_to_nul(units + seq![0u16] + behind) == units,
        up_to_nul(units) == units,
{
    let all = units + seq![0u16] + behind;
    assert forall|i: int| 0 <= i < units.len() implies all[i] != 0 by {
        assert(all[i] == units[i]);
    }
    lemma_up_to_nul(all, units.len() as int);
    assert(all.take(units.len() as int) =~= units);
    lemma_up_to_nul(units, units.len() as int);
    assert(units.take(units.len() as int) =~= units);
}

proof fn lemma_units_concat(a: Seq<char>, b: Seq<char>)
    ensures
        units_of(a + b) == units_of(a) + units_of(b),
    decreases b.len(),
{
    if b.len() == 0 {
        assert(a + b =~= a);
        assert(units_of(a) + units_of(b) =~= units_of(a));
    } else {
        assert((a + b).drop_last() =~= a + b.drop_last());
        lemma_units_concat(a, b.drop_last());
        assert(units_of(a + b) =~= units_of(a) + units_of(b));
    }
}

/// All surrogates are paired exactly where units are those of a text, which is then the text
/// that they are read as.
pub proof fn law_paired_units_are_a_text(units: Seq<u16>)
    ensures
        well_paired(units) <==> units_of(lossy_text(units)) == units,
{
    if units_of(lossy_text(units)) == units {
        law_utf16_reads_back(lossy_text(units));
    }
    if well_paired(units) {
        lemma_paired_units(units);
    }
}

proof fn lemma_paired_units(units: Seq<u16>)
    requires
        well_paired(units),
    ensures
        units_of(lossy_text(units)) == units,
    decreases units.len(),
{
    if units.len() == 0 {
        assert(lossy_text(units) =~= Seq::<char>::empty());
        assert(units_of(lossy_text(units)) =~= units);
    } else {
        assert(chars_of(units)[0] is Some);
        let width: int = if high_surrogate(units[0]) {
            2
        } else {
            1
        };
        let rest = units.skip(width);
        let first = chars_of(units)[0]->Some_0;
        assert(chars_of(units) == seq![Some(first)] + chars_of(rest));
        assert forall|i: int| 0 <= i < chars_of(rest).len() implies (
        #[trigger] chars_of(rest)[i]) is Some by {
            assert(chars_of(units)[i + 1] == chars_of(rest)[i]);
        }
        lemma_paired_units(rest);
        assert(lossy_text(units) =~= seq![first] + lossy_text(rest));
        lemma_units_concat(seq![first], lossy_text(rest));
        assert(seq![first].drop_last() =~= Seq::<char>::empty());
        assert(units_of(Seq::<char>::empty()) =~= Seq::<u16>::empty());
        assert(units_of(seq![first]) =~= units_of_char(first));
        if width == 1 {
            let unit = units[0];
            assert(is_scalar(unit as u32));
            assert((unit as u32 as char) as u32 == unit as u32);
            assert(units_of_char(first) =~= seq![unit]);
        } else {
            let high = units[0];
            let low = units[1];
            let code = (0x1_0000 + (high - 0xd800) * 0x400 + (low - 0xdc00)) as u32;
            assert(is_scalar(code));
            assert((code as char) as u32 == code);
            assert((code - 0x1_0000) / 0x400 == high - 0xd800);
            assert((code - 0x1_0000) % 0x400 == low - 0xdc00);
            assert(units_of_char(first) =~= seq![high, low]);
        }
        assert(units_of_char(first) + rest =~= units);
    }
}

} // verus!
