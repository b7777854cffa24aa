//! Wide (UTF-16) text, as the Win32 interfaces take and give it.
use vstd::prelude::*;
use vstd::slice::slice_subrange;

verus! {

/// How many units of a wide string are looked at before giving up on finding its end.
pub const MAX_WIDE_LEN: usize = 32768;

/// Whether a unit is the first of a surrogate pair.
pub open spec fn is_high(u: u16) -> bool {
    0xd800 <= u < 0xdc00
}

/// Whether a unit is the second of a surrogate pair.
pub open spec fn is_low(u: u16) -> bool {
    0xdc00 <= u < 0xe000
}

/// The UTF-16 units of one character: itself, or a surrogate pair.
pub open spec fn char_units(c: char) -> Seq<u16> {
    if (c as u32) < 0x1_0000 {
        seq![c as u16]
    } else {
        seq![
            (0xd800 + (c as u32 - 0x1_0000) / 0x400) as u16,
            (0xdc00 + (c as u32 - 0x1_0000) % 0x400) as u16,
        ]
    }
}

/// The UTF-16 units of a text.
pub open spec fn utf16(s: Seq<char>) -> Seq<u16>
    decreases s.len(),
{
    if s.len() == 0 {
        Seq::empty()
    } else {
        char_units(s[0]) + utf16(s.skip(1))
    }
}

/// The character that a surrogate pair stands for.
pub open spec fn paired(high: u16, low: u16) -> char {
    (0x1_0000 + (high - 0xd800) * 0x400 + (low - 0xdc00)) as char
}

/// The text that UTF-16 units stand for, with U+FFFD in the place of each unpaired surrogate.
pub open spec fn decoded(units: Seq<u16>) -> Seq<char>
    decreases units.len(),
{
    if units.len() == 0 {
        Seq::empty()
    } else if !is_high(units[0]) && !is_low(units[0]) {
        seq![units[0] as char] + decoded(units.skip(1))
    } else if units.len() > 1 && is_high(units[0]) && is_low(units[1]) {
        seq![paired(units[0], units[1])] + decoded(units.skip(2))
    } else {
        seq!['\u{fffd}'] + decoded(units.skip(1))
    }
}

/// A text as a NUL-terminated wide string.
pub open spec fn wide_of(s: Seq<char>) -> Seq<u16> {
    utf16(s).push(0)
}

/// The length of the wide string that begins at the head of `units`: up to its first NUL, or
/// all of the units that may be looked at.
pub open spec fn wide_len(units: Seq<u16>) -> int {
    let end = match units.index_of_first(0u16) {
        Some(i) => i,
        None => units.len() as int,
    };
    if end < MAX_WIDE_LEN {
        end
    } else {
        MAX_WIDE_LEN as int
    }
}

/// Units without the NULs at their end.
pub open spec fn without_trailing_nuls(units: Seq<u16>) -> Seq<u16>
    decreases units.len(),
{
    if units.len() > 0 && units.last() == 0 {
        without_trailing_nuls(units.drop_last())
    } else {
        units
    }
}

/// A text without the NULs at its end.
pub open spec fn without_last_nuls(s: Seq<char>) -> Seq<char>
    decreases s.len(),
{
    if s.len() > 0 && s.last() == '\0' {
        without_last_nuls(s.drop_last())
    } else {
        s
    }
}

/// `char::from_u32`: the character with a given code point, if there is one. The code points are
/// 0 to 0x10FFFF but for the surrogates.
pub assume_specification[ char::from_u32 ](i: u32) -> (r: Option<char>)
    ensures
        r == (if i < 0xd800 || 0xe000 <= i <= 0x10ffff {
            Some(i as char)
        } else {
            None
        }),
;

/// Appends the UTF-16 units of one character.
fn push_units(out: &mut Vec<u16>, c: char)
    ensures
        final(out)@ == old(out)@ + char_units(c),
{
    let v: u32 = c as u32;
    if v < 0x1_0000 {
        out.push(v as u16);
        assert(out@ =~= old(out)@ + char_units(c));
    } else {
        let w: u32 = v - 0x1_0000;
        out.push((0xd800 + w / 0x400) as u16);
        out.push((0xdc00 + w % 0x400) as u16);
        assert(out@ =~= old(out)@ + char_units(c));
    }
}

/// Encodes a string as a NUL-terminated UTF-16 buffer for the wide Win32 interfaces.
pub fn wide(s: &str) -> (r: Vec<u16>)
    ensures
        r@ == wide_of(s@),
{
    let mut out: Vec<u16> = Vec::new();
    assert(s@.skip(0) =~= s@);
    for c in it: s.chars()
        invariant
            it.seq() == s@,
            out@ + utf16(s@.skip(it.index())) == utf16(s@),
    {
        let ghost i = it.index();
        assert(s@.skip(i).skip(1) =~= s@.skip(i + 1));
        assert(s@.skip(i)[0] == c);
        let ghost before = out@;
        push_units(&mut out, c);
        assert(before + (char_units(c) + utf16(s@.skip(i + 1))) =~= (before + char_units(c)) + utf16(
            s@.skip(i + 1),
        ));
    }
    assert(s@.skip(s@.len() as int) =~= Seq::<char>::empty());
    assert(out@ =~= utf16(s@));
    out.push(0);
    out
}

/// Decodes UTF-16 units, putting U+FFFD in the place of each unpaired surrogate.
pub fn decode(units: &[u16]) -> (r: String)
    ensures
        r@ == decoded(units@),
{
    let mut out = String::new();
    let mut i: usize = 0;
    assert(units@.skip(0) =~= units@);
    while i < units.len()
        invariant
            i <= units@.len(),
            out@ + decoded(units@.skip(i as int)) == decoded(units@),
        decreases units@.len() - i,
    {
        let ghost rest = units@.skip(i as int);
        let ghost before = out@;
        let first: u16 = units[i];
        assert(rest[0] == first);
        assert(rest.skip(1) =~= units@.skip(i + 1));
        if first < 0xd800 || first >= 0xe000 {
            match char::from_u32(first as u32) {
                Some(c) => {
                    out.push(c);
                },
                None => {},
            }
            i += 1;
        } else if first < 0xdc00 && units.len() - i > 1 && 0xdc00 <= units[i + 1] && units[i + 1] < 0xe000 {
            let second: u16 = units[i + 1];
            assert(rest[1] == second);
            assert(rest.skip(2) =~= units@.skip(i + 2));
            let v: u32 = 0x1_0000 + (first as u32 - 0xd800) * 0x400 + (second as u32 - 0xdc00);
            match char::from_u32(v) {
                Some(c) => {
                    out.push(c);
                },
                None => {},
            }
            i += 2;
        } else {
            out.push('\u{fffd}');
            i += 1;
        }
        assert(out@ + decoded(units@.skip(i as int)) =~= before + decoded(rest));
    }
    assert(units@.skip(i as int) =~= Seq::<u16>::empty());
    assert(out@ =~= decoded(units@));
    out
}

/// Reads a NUL-terminated wide string from the head of a buffer; a missing buffer has none.
///
/// The scan for the NUL is bounded, so that a corrupt buffer cannot run away.
pub fn read_wide(buffer: Option<&[u16]>) -> (r: Option<String>)
    ensures
        r is Some <==> buffer is Some,
        buffer matches Some(units) ==> r->0@ == decoded(units@.take(wide_len(units@))),
        buffer matches Some(units) ==> exists|n: int|
            {
                &&& 0 <= n <= units@.len()
                &&& n <= 32768
                &&& r->0@ == decoded(#[trigger] units@.take(n))
                &&& forall|i: int| 0 <= i < n ==> units@[i] != 0
                &&& n == units@.len() || n == 32768 || units@[n] == 0
            },
{
    match buffer {
        None => None,
        Some(units) => {
            let mut len: usize = 0;
            while len < MAX_WIDE_LEN && len < units.len() && units[len] != 0
                invariant
                    len <= units@.len(),
                    len <= MAX_WIDE_LEN,
                    forall|i: int| 0 <= i < len ==> units@[i] != 0,
                decreases MAX_WIDE_LEN - len,
            {
                len += 1;
            }
            proof {
                units@.index_of_first_ensures(0u16);
            }
            assert(units@.subrange(0, len as int) =~= units@.take(len as int));
            Some(decode(slice_subrange(units, 0, len)))
        },
    }
}

/// Drops the NULs at the end of a buffer.
pub fn trim_nuls(units: Vec<u16>) -> (r: Vec<u16>)
    ensures
        r@ == without_trailing_nuls(units@),
        r@.len() > 0 ==> r@.last() != 0,
        r@.is_prefix_of(units@),
        forall|i: int| r@.len() <= i < units@.len() ==> units@[i] == 0,
{
    let mut out = units;
    while out.len() > 0 && out[out.len() - 1] == 0
        invariant
            without_trailing_nuls(out@) == without_trailing_nuls(units@),
            out@.is_prefix_of(units@),
            forall|i: int| out@.len() <= i < units@.len() ==> units@[i] == 0,
        decreases out@.len(),
    {
        let ghost before = out@;
        let _ = out.pop();
        assert(out@ =~= before.drop_last());
    }
    out
}

proof fn lemma_decode_char(c: char, rest: Seq<u16>)
    ensures
        decoded(char_units(c) + rest) == seq![c] + decoded(rest),
{
    let units = char_units(c) + rest;
    if (c as u32) < 0x1_0000 {
        assert(units.skip(1) =~= rest);
    } else {
        assert(units.skip(2) =~= rest);
    }
}

/// Encoding a text and decoding what came out gives the text back.
pub proof fn law_decode_inverts_encode(s: Seq<char>)
    ensures
        decoded(utf16(s)) == s,
    decreases s.len(),
{
    if s.len() > 0 {
        law_decode_inverts_encode(s.skip(1));
        lemma_decode_char(s[0], utf16(s.skip(1)));
        assert(seq![s[0]] + s.skip(1) =~= s);
    }
}

proof fn lemma_decode_text(s: Seq<char>, rest: Seq<u16>)
    ensures
        decoded(utf16(s) + rest) == s + decoded(rest),
    decreases s.len(),
{
    if s.len() > 0 {
        let tail = utf16(s.skip(1)) + rest;
        lemma_decode_text(s.skip(1), rest);
        lemma_decode_char(s[0], tail);
        assert(utf16(s) + rest =~= char_units(s[0]) + tail);
        assert(seq![s[0]] + (s.skip(1) + decoded(rest)) =~= s + decoded(rest));
    } else {
        assert(utf16(s) + rest =~= rest);
        assert(s + decoded(rest) =~= decoded(rest));
    }
}

/// The units of two texts put together are the units of the first and then those of the second.
pub proof fn law_encode_joins(a: Seq<char>, b: Seq<char>)
    ensures
        utf16(a + b) == utf16(a) + utf16(b),
    decreases a.len(),
{
    if a.len() > 0 {
        law_encode_joins(a.skip(1), b);
        assert((a + b).skip(1) =~= a.skip(1) + b);
        assert(char_units(a[0]) + (utf16(a.skip(1)) + utf16(b)) =~= utf16(a) + utf16(b));
    } else {
        assert(a + b =~= b);
        assert(utf16(a) + utf16(b) =~= utf16(b));
    }
}

proof fn lemma_char_has_no_nul(c: char)
    requires
        c != '\0',
    ensures
        char_units(c).len() > 0,
        forall|i: int| 0 <= i < char_units(c).len() ==> #[trigger] char_units(c)[i] != 0,
{
    assert(c as u32 != 0);
}

proof fn lemma_no_nul_units(s: Seq<char>)
    requires
        !s.contains('\0'),
    ensures
        forall|i: int| 0 <= i < utf16(s).len() ==> utf16(s)[i] != 0,
    decreases s.len(),
{
    if s.len() > 0 {
        assert(s.contains(s[0]));
        assert forall|c: char| s.skip(1).contains(c) implies s.contains(c) by {
            let i = choose|i: int| 0 <= i < s.skip(1).len() && s.skip(1)[i] == c;
            assert(s[i + 1] == c);
        }
        lemma_no_nul_units(s.skip(1));
        lemma_char_has_no_nul(s[0]);
        let head = char_units(s[0]);
        assert forall|i: int| 0 <= i < utf16(s).len() implies utf16(s)[i] != 0 by {
            if i < head.len() {
                assert(utf16(s)[i] == head[i]);
            } else {
                assert(utf16(s)[i] == utf16(s.skip(1))[i - head.len()]);
            }
        }
    }
}

proof fn lemma_last_unit(s: Seq<char>)
    requires
        s.len() > 0,
        s.last() != '\0',
    ensures
        utf16(s).len() > 0,
        utf16(s).last() != 0,
    decreases s.len(),
{
    if s.len() > 1 {
        lemma_last_unit(s.skip(1));
    } else {
        reveal_with_fuel(utf16, 2);
        assert(utf16(s) =~= char_units(s[0]));
        lemma_char_has_no_nul(s[0]);
    }
}

/// A wide string is read back as the text that it was made of, whatever follows it in the
/// buffer: a NUL in the text would end it early, and no more than [`MAX_WIDE_LEN`] units are
/// looked at.
pub proof fn law_read_inverts_wide(s: Seq<char>, after: Seq<u16>)
    requires
        !s.contains('\0'),
        utf16(s).len() <= MAX_WIDE_LEN,
    ensures
        ({
            let buffer = wide_of(s) + after;
            decoded(buffer.take(wide_len(buffer))) == s
        }),
{
    let buffer = wide_of(s) + after;
    lemma_no_nul_units(s);
    buffer.index_of_first_ensures(0u16);
    assert(buffer[utf16(s).len() as int] == 0);
    assert(forall|i: int| 0 <= i < utf16(s).len() ==> buffer[i] == utf16(s)[i]);
    assert(buffer.take(wide_len(buffer)) =~= utf16(s));
    law_decode_inverts_encode(s);
}

/// However a buffer goes on, the text that is read from it begins with the text that the buffer
/// begins with: a NUL in that text would end it early, and no more than [`MAX_WIDE_LEN`] units
/// are looked at.
pub proof fn law_read_begins_as_buffer(s: Seq<char>, after: Seq<u16>)
    requires
        !s.contains('\0'),
        utf16(s).len() <= MAX_WIDE_LEN,
    ensures
        ({
            let buffer = utf16(s) + after;
            s.is_prefix_of(decoded(buffer.take(wide_len(buffer))))
        }),
{
    let head = utf16(s);
    let buffer = head + after;
    lemma_no_nul_units(s);
    buffer.index_of_first_ensures(0u16);
    assert forall|i: int| 0 <= i < head.len() implies buffer[i] != 0 by {
        assert(buffer[i] == head[i]);
    }
    let seen = buffer.take(wide_len(buffer));
    let rest = seen.skip(head.len() as int);
    assert(seen =~= head + rest);
    lemma_decode_text(s, rest);
}

proof fn lemma_trim_text(s: Seq<char>)
    ensures
        decoded(without_trailing_nuls(utf16(s))) == without_last_nuls(s),
    decreases s.len(),
{
    if s.len() > 0 && s.last() == '\0' {
        let front = s.drop_last();
        lemma_trim_text(front);
        law_encode_joins(front, seq!['\0']);
        assert(front + seq!['\0'] =~= s);
        reveal_with_fuel(utf16, 2);
        assert(utf16(seq!['\0']) =~= seq![0u16]);
        assert(utf16(s).drop_last() =~= utf16(front));
    } else {
        if s.len() > 0 {
            lemma_last_unit(s);
        }
        law_decode_inverts_encode(s);
    }
}

/// Padding a wide string with further NULs and then trimming and decoding it gives the text
/// back, without any NULs at its own end.
pub proof fn law_trim_inverts_wide(s: Seq<char>, padding: nat)
    ensures
        decoded(without_trailing_nuls(wide_of(s) + Seq::new(padding, |i: int| 0u16)))
            == without_last_nuls(s),
    decreases padding,
{
    let padded = wide_of(s) + Seq::new(padding, |i: int| 0u16);
    if padding > 0 {
        let less = wide_of(s) + Seq::new((padding - 1) as nat, |i: int| 0u16);
        assert(padded.drop_last() =~= less);
        law_trim_inverts_wide(s, (padding - 1) as nat);
    } else {
        assert(padded.drop_last() =~= utf16(s));
        assert(without_trailing_nuls(padded) == without_trailing_nuls(utf16(s)));
        lemma_trim_text(s);
    }
}

proof fn lemma_decoded_is_clean(units: Seq<u16>)
    requires
        forall|i: int| 0 <= i < units.len() ==> units[i] != 0,
    ensures
        !decoded(units).contains('\0'),
        utf16(decoded(units)).len() <= units.len(),
    decreases units.len(),
{
    if units.len() > 0 {
        let used: int = if units.len() > 1 && is_high(units[0]) && is_low(units[1]) {
            2
        } else {
            1
        };
        let rest = units.skip(used);
        lemma_decoded_is_clean(rest);
        let text = decoded(units);
        assert(text.skip(1) =~= decoded(rest));
        assert(text[0] != '\0');
        assert(char_units(text[0]).len() <= used);
        assert forall|i: int| 0 <= i < text.len() implies text[i] != '\0' by {
            if i > 0 {
                assert(text[i] == decoded(rest)[i - 1]);
                assert(decoded(rest).contains(decoded(rest)[i - 1]));
            }
        }
    }
}

/// A text that was read from a wide string holds no NUL, and is no longer as a wide string than
/// was looked at.
pub proof fn law_read_text_is_clean(buffer: Seq<u16>)
    ensures
        ({
            let text = decoded(buffer.take(wide_len(buffer)));
            !text.contains('\0') && utf16(text).len() <= MAX_WIDE_LEN
        }),
{
    buffer.index_of_first_ensures(0u16);
    lemma_decoded_is_clean(buffer.take(wide_len(buffer)));
}

/// The UTF-16 units of a text are those of its characters, one after the other. A character up to
/// U+FFFF is one unit, its code point. Any other is two, a high and a low surrogate, which hold the
/// upper and the lower ten bits of its code point less 0x10000.
pub proof fn law_units_of_characters(s: Seq<char>, c: char)
    ensures
        utf16(Seq::empty()) == Seq::<u16>::empty(),
        ({
            let units = utf16(s.push(c)).skip(utf16(s).len() as int);
            &&& utf16(s).is_prefix_of(utf16(s.push(c)))
            &&& c as u32 <= 0xffff ==> units.len() == 1 && units[0] as int == c as int
            &&& c as u32 > 0xffff ==> {
                &&& units.len() == 2
                &&& 0xd800 <= units[0] <= 0xdbff
                &&& 0xdc00 <= units[1] <= 0xdfff
                &&& (units[0] - 0xd800) * 1024 + (units[1] - 0xdc00) + 0x1_0000 == c as int
            }
        }),
{
    let one = seq![c];
    law_encode_joins(s, one);
    assert(s.push(c) =~= s + one);
    reveal_with_fuel(utf16, 2);
    assert(one.skip(1) =~= Seq::empty());
    assert(utf16(one) =~= char_units(c));
    assert(utf16(s.push(c)).skip(utf16(s).len() as int) =~= char_units(c));
    assert(utf16(s) =~= utf16(s.push(c)).subrange(0, utf16(s).len() as int));
}

/// A wide string is the units of its text, and one NUL.
pub proof fn law_wide_ends_in_nul(s: Seq<char>)
    ensures
        wide_of(s).len() == utf16(s).len() + 1,
        wide_of(s).drop_last() == utf16(s),
        wide_of(s).last() == 0,
{
    assert(wide_of(s).drop_last() =~= utf16(s));
}

/// Decoding the units of a text and whatever follows gives the text, and then what the rest decodes
/// to.
pub proof fn law_decode_goes_on_after_text(s: Seq<char>, rest: Seq<u16>)
    ensures
        decoded(utf16(s) + rest) == s + decoded(rest),
{
    lemma_decode_text(s, rest);
}

/// An unpaired surrogate is decoded to U+FFFD, wherever it stands: a low one, or a high one without a
/// low one after it.
pub proof fn law_unpaired_surrogate_is_replaced(s: Seq<char>, unit: u16, rest: Seq<u16>)
    requires
        0xd800 <= unit <= 0xdfff,
        unit < 0xdc00 ==> rest.len() == 0 || !(0xdc00 <= rest[0] <= 0xdfff),
    ensures
        decoded(utf16(s) + seq![unit] + rest) == s + seq!['\u{fffd}'] + decoded(rest),
        decoded(Seq::empty()) == Seq::<char>::empty(),
{
    let tail = seq![unit] + rest;
    lemma_decode_text(s, tail);
    assert(tail.skip(1) =~= rest);
    assert(utf16(s) + seq![unit] + rest =~= utf16(s) + tail);
    assert(s + seq!['\u{fffd}'] + decoded(rest) =~= s + (seq!['\u{fffd}'] + decoded(rest)));
}

/// Reading stops at the first NUL, or else at the end of the buffer, and in any case after 32768
/// units.
pub proof fn law_read_stops_at_nul(units: Seq<u16>, after: Seq<u16>)
    requires
        forall|i: int| 0 <= i < units.len() ==> units[i] != 0,
    ensures
        ({
            let ended = units.push(0) + after;
            &&& units.len() <= 32768 ==> ended.take(wide_len(ended)) == units
            &&& units.len() <= 32768 ==> units.take(wide_len(units)) == units
            &&& units.len() >= 32768 ==> ended.take(wide_len(ended)) == units.take(32768)
            &&& units.len() >= 32768 ==> units.take(wide_len(units)) == units.take(32768)
        }),
{
    let ended = units.push(0) + after;
    ended.index_of_first_ensures(0u16);
    units.index_of_first_ensures(0u16);
    let n = units.len() as int;
    assert(ended[n] == 0);
    assert(ended.contains(ended[n]));
    assert forall|i: int| 0 <= i < n implies ended[i] != 0 by {
        assert(ended[i] == units[i]);
    }
    assert(ended.index_of_first(0u16) == Some(n));
    assert(!units.contains(0u16));
    if n <= 32768 {
        assert(ended.take(n) =~= units);
        assert(units.take(n) =~= units);
    }
    if n >= 32768 {
        assert(ended.take(32768) =~= units.take(32768));
    }
}

/// Trimming takes away the NULs at the end, all of them, and nothing else.
pub proof fn law_trim_takes_nuls_away(units: Seq<u16>, nuls: nat)
    requires
        units.len() > 0 ==> units.last() != 0,
    ensures
        without_trailing_nuls(units + Seq::new(nuls, |i: int| 0u16)) == units,
    decreases nuls,
{
    let padded = units + Seq::new(nuls, |i: int| 0u16);
    if nuls > 0 {
        assert(padded.drop_last() =~= units + Seq::new((nuls - 1) as nat, |i: int| 0u16));
        law_trim_takes_nuls_away(units, (nuls - 1) as nat);
    } else {
        assert(padded =~= units);
    }
}

/// A text without the NULs at its end is what is left when they, all of them, are taken away.
pub proof fn law_text_trim_takes_nuls_away(s: Seq<char>, nuls: nat)
    requires
        s.len() > 0 ==> s.last() != '\0',
    ensures
        without_last_nuls(s + Seq::new(nuls, |i: int| '\0')) == s,
    decreases nuls,
{
    let padded = s + Seq::new(nuls, |i: int| '\0');
    if nuls > 0 {
        assert(padded.drop_last() =~= s + Seq::new((nuls - 1) as nat, |i: int| '\0'));
        law_text_trim_takes_nuls_away(s, (nuls - 1) as nat);
    } else {
        assert(padded =~= s);
    }
}

} // verus!
