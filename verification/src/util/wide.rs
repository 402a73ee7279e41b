//! UTF-16 text, as Win32 hands it out and takes it.
use crate::util::text::characters;
use vstd::prelude::*;

verus! {

/// `char::from_u32` gives the character with that code point; surrogates and
/// numbers above `0x10FFFF` belong to none.
pub assume_specification[ char::from_u32 ](i: u32) -> (c: Option<char>)
    ensures
        c is Some <==> (i < 0xD800 || 0xE000 <= i <= 0x10FFFF),
        c matches Some(ch) ==> ch as u32 == i,
;

/// What stands for a code unit that belongs to no character.
pub const REPLACEMENT: char = '\u{FFFD}';

/// A first half of a surrogate pair.
pub open spec fn is_high(u: u16) -> bool {
    0xD800 <= u < 0xDC00
}

/// A second half of a surrogate pair.
pub open spec fn is_low(u: u16) -> bool {
    0xDC00 <= u < 0xE000
}

/// The code units of one character.
pub open spec fn char_units(c: char) -> Seq<u16> {
    if (c as u32) < 0x1_0000 {
        seq![c as u16]
    } else {
        seq![
            (0xD800 + (c as int - 0x1_0000) / 0x400) as u16,
            (0xDC00 + (c as int - 0x1_0000) % 0x400) as u16,
        ]
    }
}

/// The UTF-16 form of a text.
pub open spec fn utf16(s: Seq<char>) -> Seq<u16>
    decreases s.len(),
{
    if s.len() == 0 {
        Seq::empty()
    } else {
        char_units(s[0]) + utf16(s.drop_first())
    }
}

/// The text of code units. Each surrogate without its other half becomes
/// [`REPLACEMENT`].
pub open spec fn utf16_lossy(units: Seq<u16>) -> Seq<char>
    decreases units.len(),
{
    if units.len() == 0 {
        Seq::empty()
    } else if !is_high(units[0]) && !is_low(units[0]) {
        seq![units[0] as char] + utf16_lossy(units.drop_first())
    } else if is_high(units[0]) && units.len() >= 2 && is_low(units[1]) {
        seq![(0x1_0000 + 0x400 * (units[0] - 0xD800) + (units[1] - 0xDC00)) as char]
            + utf16_lossy(units.skip(2))
    } else {
        seq![REPLACEMENT] + utf16_lossy(units.drop_first())
    }
}

/// How many units come before the first zero, or all of them without one.
pub open spec fn text_len(units: Seq<u16>) -> nat
    decreases units.len(),
{
    if units.len() == 0 || units[0] == 0 {
        0
    } else {
        1 + text_len(units.drop_first())
    }
}

/// The text in a buffer, which ends at the first zero or with the buffer.
pub open spec fn wide_text(units: Seq<u16>) -> Seq<char> {
    utf16_lossy(units.take(text_len(units) as int))
}

/// A character is its code point, and no surrogate.
proof fn lemma_char(c: char)
    ensures
        (c as int) < 0xD800 || 0xE000 <= c as int <= 0x10FFFF,
        (c as int) as char == c,
        (c as u32) == c as int,
{
}

proof fn lemma_text_len(units: Seq<u16>, k: int)
    requires
        0 <= k <= units.len(),
        forall|i: int| 0 <= i < k ==> units[i] != 0,
        k == units.len() || units[k] == 0,
    ensures
        text_len(units) == k,
    decreases units.len(),
{
    if k > 0 {
        assert forall|i: int| 0 <= i < k - 1 implies units.drop_first()[i] != 0 by {
            assert(units[i + 1] != 0);
        }
        lemma_text_len(units.drop_first(), k - 1);
    }
}

/// Decodes UTF-16, with [`REPLACEMENT`] for what is not valid.
fn decode_lossy(units: &[u16], end: usize) -> (s: String)
    requires
        end <= units@.len(),
    ensures
        s@ == utf16_lossy(units@.take(end as int)),
{
    let mut s = String::new();
    let mut i: usize = 0;
    let ghost all = units@.take(end as int);
    assert(all.skip(0) =~= all);
    while i < end
        invariant
            i <= end <= units@.len(),
            all == units@.take(end as int),
            s@ + utf16_lossy(all.skip(i as int)) == utf16_lossy(all),
        decreases end - i,
    {
        let ghost rest = all.skip(i as int);
        let ghost before = s@;
        let u: u16 = units[i];
        let mut taken: usize = 1;
        let mut code: u32 = u as u32;
        if 0xD800 <= u && u < 0xE000 {
            code = 0xFFFD;
            if u < 0xDC00 && end - i >= 2 {
                let v: u16 = units[i + 1];
                if 0xDC00 <= v && v < 0xE000 {
                    code = 0x1_0000 + 0x400 * (u as u32 - 0xD800) + (v as u32 - 0xDC00);
                    taken = 2;
                }
            }
        }
        match char::from_u32(code) {
            Some(c) => {
                s.push(c);
                i = i + taken;
                proof {
                    assert(rest[0] == u);
                    assert(taken == 2 ==> rest[1] == units@[i - 1]);
                    if taken == 1 {
                        assert(rest.drop_first() =~= all.skip(i as int));
                    } else {
                        assert(rest.skip(2) =~= all.skip(i as int));
                    }
                    lemma_char(c);
                    lemma_char(REPLACEMENT);
                    assert(utf16_lossy(rest) =~= seq![c] + utf16_lossy(all.skip(i as int)));
                    assert(before.push(c) + utf16_lossy(all.skip(i as int)) =~= before + (seq![c]
                        + utf16_lossy(all.skip(i as int))));
                }
            },
            None => {
                assert(false);
            },
        }
    }
    assert(all.skip(end as int) =~= Seq::empty());
    assert(s@ + Seq::<char>::empty() =~= s@);
    s
}

/// The text held by a buffer of code units.
pub fn wide_to_string(buf: &[u16]) -> (s: String)
    ensures
        s@ == wide_text(buf@),
{
    let mut end: usize = 0;
    while end < buf.len() && buf[end] != 0
        invariant
            end <= buf@.len(),
            forall|i: int| 0 <= i < end ==> buf@[i] != 0,
        ensures
            end <= buf@.len(),
            forall|i: int| 0 <= i < end ==> buf@[i] != 0,
            end == buf@.len() || buf@[end as int] == 0,
        decreases buf@.len() - end,
    {
        end = end + 1;
    }
    proof {
        lemma_text_len(buf@, end as int);
    }
    decode_lossy(buf, end)
}

/// The UTF-16 form of a text, with a zero behind it.
pub fn to_wide(s: &str) -> (v: Vec<u16>)
    ensures
        v@ == utf16(s@).push(0),
{
    let chars = characters(s);
    let mut v: Vec<u16> = Vec::new();
    assert(s@.skip(0) =~= s@);
    for i in 0..chars.len()
        invariant
            chars@ == s@,
            v@ + utf16(s@.skip(i as int)) == utf16(s@),
    {
        let ghost before = v@;
        let ghost rest = s@.skip(i as int);
        let c: char = chars[i];
        proof {
            lemma_char(c);
        }
        let code: u32 = c as u32;
        if code < 0x1_0000 {
            v.push(code as u16);
        } else {
            v.push((0xD800 + (code - 0x1_0000) / 0x400) as u16);
            v.push((0xDC00 + (code - 0x1_0000) % 0x400) as u16);
        }
        proof {
            assert(rest.drop_first() =~= s@.skip(i + 1));
            assert(v@ =~= before + char_units(rest[0]));
            assert(v@ + utf16(s@.skip(i + 1)) =~= before + utf16(rest));
        }
    }
    assert(s@.skip(chars.len() as int) =~= Seq::empty());
    v.push(0);
    assert(v@ =~= utf16(s@).push(0));
    v
}

/// Decoding the UTF-16 form of a text gives the text back.
pub proof fn utf16_round_trip(s: Seq<char>)
    ensures
        utf16_lossy(utf16(s)) == s,
    decreases s.len(),
{
    if s.len() > 0 {
        let (head, tail) = (char_units(s[0]), utf16(s.drop_first()));
        utf16_round_trip(s.drop_first());
        lemma_char(s[0]);
        let units = utf16(s);
        assert(units[0] == head[0]);
        if head.len() == 1 {
            assert(units.drop_first() =~= tail);
        } else {
            assert(units[1] == head[1]);
            assert(units.skip(2) =~= tail);
        }
        assert(utf16_lossy(units) =~= seq![s[0]] + s.drop_first());
        assert(seq![s[0]] + s.drop_first() =~= s);
    }
}

proof fn lemma_utf16_no_zero(s: Seq<char>)
    requires
        !s.contains('\0'),
    ensures
        forall|i: int| 0 <= i < utf16(s).len() ==> utf16(s)[i] != 0,
    decreases s.len(),
{
    if s.len() > 0 {
        assert(s.contains(s[0]));
        assert forall|c: char| s.drop_first().contains(c) implies s.contains(c) by {
            let j = choose|j: int| 0 <= j < s.len() - 1 && s.drop_first()[j] == c;
            assert(s[j + 1] == c);
        }
        lemma_utf16_no_zero(s.drop_first());
        lemma_char(s[0]);
        let (head, tail) = (char_units(s[0]), utf16(s.drop_first()));
        assert forall|i: int| 0 <= i < utf16(s).len() implies utf16(s)[i] != 0 by {
            if i >= head.len() {
                assert(utf16(s)[i] == tail[i - head.len()]);
            }
        }
    }
}

/// A text without NUL comes back unchanged from its zero-terminated form.
pub proof fn wide_round_trip(s: Seq<char>)
    requires
        !s.contains('\0'),
    ensures
        wide_text(utf16(s).push(0)) == s,
{
    let units = utf16(s).push(0);
    lemma_utf16_no_zero(s);
    assert forall|i: int| 0 <= i < utf16(s).len() implies units[i] != 0 by {
        assert(units[i] == utf16(s)[i]);
    }
    lemma_text_len(units, utf16(s).len() as int);
    assert(units.take(utf16(s).len() as int) =~= utf16(s));
    utf16_round_trip(s);
}

} // verus!
