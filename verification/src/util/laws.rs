//! Laws of numbers, texts and executables, stated byte by byte and character by
//! character.
use crate::util::bytes::{u16_at, u16_bytes, u32_at, u32_bytes, u64_at, u64_bytes};
use crate::util::error::QuickResumeError;
use crate::util::pe::{
    aslr_disabled, characteristics_at, disabled_from, dll_characteristics_offset, patch_report,
    restored_from, without_dynamic_base, AslrPatch, ExeFiles,
};
use crate::util::text::{ascii_lower, decimal, hex, same_name};
use crate::util::wide::{char_units, text_len, utf16, utf16_lossy, wide_text};
use vstd::prelude::*;

verus! {

/// An integer is read least significant byte first.
pub proof fn integers_are_little_endian(s: Seq<u8>, i: int)
    requires
        0 <= i,
    ensures
        i + 2 <= s.len() ==> u16_at(s, i) == s[i] + 256 * s[i + 1],
        i + 4 <= s.len() ==> u32_at(s, i) == s[i] + 256 * s[i + 1] + 65536 * s[i + 2] + 16777216
            * s[i + 3],
        i + 8 <= s.len() ==> u64_at(s, i) == u32_at(s, i) + 4294967296 * u32_at(s, i + 4),
{
}

/// An integer is written with the bytes it is read from, and with no others.
pub proof fn bytes_of_an_integer(n: int)
    ensures
        0 <= n <= u16::MAX ==> u16_bytes(n).len() == 2 && u16_at(u16_bytes(n), 0) == n,
        0 <= n <= u32::MAX ==> u32_bytes(n).len() == 4 && u32_at(u32_bytes(n), 0) == n,
        0 <= n <= u64::MAX ==> u64_bytes(n).len() == 8 && u64_at(u64_bytes(n), 0) == n,
{
    if 0 <= n <= u32::MAX {
        crate::util::bytes::lemma_u32_bytes(n);
    }
    if 0 <= n <= u64::MAX {
        crate::util::bytes::lemma_u64_bytes(n);
    }
}

/// The number that a row of digits stands for in the given base. Digits from
/// ten on are upper-case letters.
pub open spec fn number_of(digits: Seq<char>, base: nat) -> nat
    decreases digits.len(),
{
    if digits.len() == 0 {
        0
    } else {
        let c = digits.last() as int;
        let digit = if 48 <= c <= 57 {
            c - 48
        } else {
            c - 55
        };
        number_of(digits.drop_last(), base) * base + digit as nat
    }
}

/// A number in decimal consists of decimal digits, stands for the number, and
/// has no leading zero.
pub proof fn decimal_stands_for_its_number(n: nat)
    ensures
        number_of(decimal(n), 10) == n,
        decimal(n).len() > 0,
        decimal(n).len() > 1 ==> decimal(n)[0] != '0',
        forall|i: int|
            0 <= i < decimal(n).len() ==> '0' as int <= #[trigger] decimal(n)[i] as int
                <= '9' as int,
    decreases n,
{
    reveal_with_fuel(number_of, 2);
    if n < 10 {
        assert(decimal(n).drop_last() =~= Seq::empty());
    } else {
        decimal_stands_for_its_number(n / 10);
        assert(decimal(n).drop_last() =~= decimal(n / 10));
        if n / 10 < 10 {
            assert(decimal(n / 10)[0] != '0');
        }
        assert(decimal(n)[0] == decimal(n / 10)[0]);
        assert forall|i: int| 0 <= i < decimal(n).len() implies '0' as int <= #[trigger] decimal(
            n,
        )[i] as int <= '9' as int by {
            if i < decimal(n / 10).len() {
                assert(decimal(n)[i] == decimal(n / 10)[i]);
            }
        }
    }
}

/// 16 to the power of `width`.
pub open spec fn sixteens(width: nat) -> nat
    decreases width,
{
    if width == 0 {
        1
    } else {
        16 * sixteens((width - 1) as nat)
    }
}

/// A number in hexadecimal has exactly `width` digits, all of them decimal
/// digits or upper-case letters up to F, and stands for the number as far as it
/// has room.
pub proof fn hex_stands_for_its_number(n: nat, width: nat)
    ensures
        hex(n, width).len() == width,
        n < sixteens(width) ==> number_of(hex(n, width), 16) == n,
        forall|i: int|
            0 <= i < width ==> ('0' as int <= #[trigger] hex(n, width)[i] as int <= '9' as int
                || 'A' as int <= hex(n, width)[i] as int <= 'F' as int),
    decreases width,
{
    if width > 0 {
        let less = (width - 1) as nat;
        hex_stands_for_its_number(n / 16, less);
        assert(hex(n, width).drop_last() =~= hex(n / 16, less));
        assert forall|i: int| 0 <= i < width implies ('0' as int <= #[trigger] hex(
            n,
            width,
        )[i] as int <= '9' as int || 'A' as int <= hex(n, width)[i] as int <= 'F' as int) by {
            if i < less {
                assert(hex(n, width)[i] == hex(n / 16, less)[i]);
            }
        }
    }
}

/// Two names are the same exactly if they are equally long and each pair of
/// characters is equal, or an ASCII letter and the same letter in the other
/// case.
pub proof fn names_differ_at_most_in_ascii_case(a: Seq<char>, b: Seq<char>)
    ensures
        same_name(a, b) <==> a.len() == b.len() && forall|i: int|
            0 <= i < a.len() ==> {
                ||| #[trigger] a[i] == b[i]
                ||| ('A' as int <= a[i] as int <= 'Z' as int && b[i] as int == a[i] as int + 32)
                ||| ('A' as int <= b[i] as int <= 'Z' as int && a[i] as int == b[i] as int + 32)
            },
{
    let l = a.map_values(|c: char| ascii_lower(c));
    let r = b.map_values(|c: char| ascii_lower(c));
    if same_name(a, b) {
        assert(l.len() == a.len() && r.len() == b.len());
        assert forall|i: int| 0 <= i < a.len() implies ({
            ||| #[trigger] a[i] == b[i]
            ||| ('A' as int <= a[i] as int <= 'Z' as int && b[i] as int == a[i] as int + 32)
            ||| ('A' as int <= b[i] as int <= 'Z' as int && a[i] as int == b[i] as int + 32)
        }) by {
            assert(l[i] == r[i]);
        }
    } else if a.len() == b.len() {
        if forall|i: int|
            0 <= i < a.len() ==> {
                ||| #[trigger] a[i] == b[i]
                ||| ('A' as int <= a[i] as int <= 'Z' as int && b[i] as int == a[i] as int + 32)
                ||| ('A' as int <= b[i] as int <= 'Z' as int && a[i] as int == b[i] as int + 32)
            } {
            assert forall|i: int| 0 <= i < l.len() implies l[i] == r[i] by {
                assert(a[i] == a[i]);
            }
            assert(l =~= r);
        }
    }
}

/// The text of a buffer is made of the units before its first zero, or of all
/// units if there is none.
pub proof fn text_ends_at_the_first_zero(units: Seq<u16>)
    ensures
        text_len(units) <= units.len(),
        forall|i: int| 0 <= i < text_len(units) ==> #[trigger] units[i] != 0,
        text_len(units) < units.len() ==> units[text_len(units) as int] == 0,
        wide_text(units) == utf16_lossy(units.take(text_len(units) as int)),
    decreases units.len(),
{
    if units.len() > 0 && units[0] != 0 {
        let rest = units.drop_first();
        text_ends_at_the_first_zero(rest);
        assert forall|i: int| 0 <= i < text_len(units) implies #[trigger] units[i] != 0 by {
            if i > 0 {
                assert(units[i] == rest[i - 1]);
            }
        }
        assert(text_len(units) == 1 + text_len(rest));
        if text_len(units) < units.len() {
            assert(units[text_len(units) as int] == rest[text_len(rest) as int]);
        }
    }
}

/// A unit outside the surrogates is a character of its own, two surrogates that
/// fit together are one, and any other surrogate becomes the replacement
/// character. What follows is decoded in the same way.
pub proof fn utf16_is_decoded_from_the_front(u: u16, v: u16, rest: Seq<u16>)
    ensures
        utf16_lossy(Seq::<u16>::empty()) == Seq::<char>::empty(),
        !(0xD800 <= u <= 0xDFFF) ==> utf16_lossy(seq![u] + rest) == seq![u as char] + utf16_lossy(
            rest,
        ),
        0xD800 <= u <= 0xDBFF && 0xDC00 <= v <= 0xDFFF ==> utf16_lossy(seq![u, v] + rest) == seq![
            (0x10000 + (u - 0xD800) * 1024 + (v - 0xDC00)) as char,
        ] + utf16_lossy(rest),
        0xDC00 <= u <= 0xDFFF ==> utf16_lossy(seq![u] + rest) == seq!['\u{FFFD}'] + utf16_lossy(
            rest,
        ),
        0xD800 <= u <= 0xDBFF ==> utf16_lossy(seq![u]) == seq!['\u{FFFD}'],
        0xD800 <= u <= 0xDBFF && !(0xDC00 <= v <= 0xDFFF) ==> utf16_lossy(seq![u, v] + rest)
            == seq!['\u{FFFD}'] + utf16_lossy(seq![v] + rest),
{
    assert((seq![u] + rest).drop_first() =~= rest);
    assert((seq![u, v] + rest).drop_first() =~= seq![v] + rest);
    assert((seq![u, v] + rest).skip(2) =~= rest);
    assert(seq![u].drop_first() =~= Seq::empty());
    assert(seq!['\u{FFFD}'] + utf16_lossy(Seq::<u16>::empty()) =~= seq!['\u{FFFD}']);
}

/// A character below `0x10000` is one unit, any other a high and a low
/// surrogate that decode to it; a text is the row of its characters' units.
pub proof fn utf16_is_written_character_by_character(c: char, rest: Seq<char>)
    ensures
        utf16(Seq::<char>::empty()) == Seq::<u16>::empty(),
        utf16(seq![c] + rest) == char_units(c) + utf16(rest),
        (c as int) < 0x10000 ==> char_units(c).len() == 1 && char_units(c)[0] as int == c as int,
        c as int >= 0x10000 ==> {
            let pair = char_units(c);
            &&& pair.len() == 2
            &&& 0xD800 <= pair[0] <= 0xDBFF
            &&& 0xDC00 <= pair[1] <= 0xDFFF
            &&& 0x10000 + (pair[0] - 0xD800) * 1024 + (pair[1] - 0xDC00) == c as int
        },
{
    assert((seq![c] + rest).drop_first() =~= rest);
    assert(c as int <= 0x10FFFF);
}

/// An error carries exactly the text it is said to carry.
pub proof fn errors_carry_their_text(e: QuickResumeError, text: Seq<char>)
    ensures
        e.is_pe_parse(text) <==> (e matches QuickResumeError::PeParse(s) && s@ == text),
        e.is_other(text) <==> (e matches QuickResumeError::Other(s) && s@ == text),
        e.is_unexpected_eof() <==> (e matches QuickResumeError::Io(s) && s@
            == "failed to fill whole buffer"@),
{
}

/// Where the PE header of an image begins.
pub open spec fn header_at(data: Seq<u8>) -> int {
    data[60] + 256 * data[61] + 65536 * data[62] + 16777216 * data[63]
}

/// An image with both signatures, the optional header of a 32- or 64-bit
/// program and room for the field has it 94 bytes behind the PE signature,
/// wherever that is. No other file has one.
pub proof fn field_of_an_image_is_found(data: Seq<u8>)
    ensures
        ({
            let n = header_at(data);
            let is_image = {
                &&& data.len() >= 64
                &&& data[0] == 0x4D && data[1] == 0x5A
                &&& n + 96 <= data.len()
                &&& data[n] == 0x50 && data[n + 1] == 0x45 && data[n + 2] == 0 && data[n + 3] == 0
                &&& data[n + 24] == 0x0B && (data[n + 25] == 1 || data[n + 25] == 2)
            };
            &&& is_image ==> dll_characteristics_offset(data) == Ok::<int, Seq<char>>(n + 94)
            &&& !is_image ==> dll_characteristics_offset(data) is Err
        }),
{
}

/// A file without the field is refused with the first complaint that holds.
pub proof fn first_complaint_is_reported(data: Seq<u8>)
    ensures
        ({
            let n = header_at(data);
            let at = dll_characteristics_offset(data);
            let mz = data[0] == 0x4D && data[1] == 0x5A;
            let pe = data[n] == 0x50 && data[n + 1] == 0x45 && data[n + 2] == 0 && data[n + 3] == 0;
            let kind = data[n + 24] + 256 * data[n + 25];
            &&& data.len() < 64 ==> at == Err::<int, Seq<char>>("File too small to be a PE"@)
            &&& data.len() >= 64 && !mz ==> at == Err::<int, Seq<char>>(
                "Not a valid PE file (missing MZ)"@,
            )
            &&& data.len() >= 64 && mz && n + 4 > data.len() ==> at == Err::<int, Seq<char>>(
                "e_lfanew out of range"@,
            )
            &&& data.len() >= 64 && mz && n + 4 <= data.len() && !pe ==> at == Err::<
                int,
                Seq<char>,
            >("Missing PE signature"@)
            &&& data.len() >= 64 && mz && n + 4 <= data.len() < n + 26 && pe ==> at == Err::<
                int,
                Seq<char>,
            >("Optional header out of range"@)
            &&& data.len() >= 64 && mz && n + 26 <= data.len() && pe && kind != 0x10B && kind
                != 0x20B ==> at == Err::<int, Seq<char>>(
                "Unknown optional header magic: 0x"@ + hex(kind as nat, 4),
            )
            &&& data.len() >= 64 && mz && n + 26 <= data.len() < n + 96 && pe && (kind == 0x10B
                || kind == 0x20B) ==> at == Err::<int, Seq<char>>(
                "DllCharacteristics field out of range"@,
            )
        }),
{
}

/// Disabling clears the bit of value 64 in the low byte of the field and
/// changes nothing else, neither in the field nor in the rest of the image.
pub proof fn disabling_clears_one_bit_of_the_image(data: Seq<u8>, offset: int)
    requires
        dll_characteristics_offset(data) == Ok::<int, Seq<char>>(offset),
    ensures
        aslr_disabled(data).len() == data.len(),
        aslr_disabled(data)[offset] == (data[offset] & 0xBFu8),
        forall|i: int|
            0 <= i < data.len() && i != offset ==> #[trigger] aslr_disabled(data)[i] == data[i],
{
    let (low, high) = (data[offset], data[offset + 1]);
    let flags = characteristics_at(data, offset);
    assert(flags == low + 256 * high);
    let after = without_dynamic_base(flags);
    assert(after == (low & 0xBFu8) + 256 * high) by (bit_vector)
        requires
            flags == low + 256 * high,
            after == flags & !0x0040u16,
    ;
    let l: int = (low & 0xBFu8) as int;
    assert(after % 256 == l && after / 256 == high);
}

/// What is no image is left as it is.
pub proof fn what_is_no_image_is_left_alone(data: Seq<u8>)
    requires
        dll_characteristics_offset(data) is Err,
    ensures
        aslr_disabled(data) == data,
{
}

/// The report tells the field before and after. It speaks of a patch exactly if
/// the bit of value 64 was set.
pub proof fn report_tells_the_field(before: u16)
    ensures
        before & 64 != 0 ==> patch_report(before) == (AslrPatch::Patched {
            before,
            after: (before - 64) as u16,
        }),
        before & 64 == 0 ==> patch_report(before) == (AslrPatch::AlreadyDisabled {
            characteristics: before,
        }),
{
    let after = without_dynamic_base(before);
    assert(before & 64 != 0 ==> after != before && after == before - 64) by (bit_vector)
        requires
            after == before & !0x0040u16,
    ;
    assert(before & 64 == 0 ==> after == before) by (bit_vector)
        requires
            after == before & !0x0040u16,
    ;
}

/// The field is the 16-bit number at its offset.
pub proof fn field_is_a_little_endian_number(data: Seq<u8>, offset: int)
    requires
        0 <= offset,
        offset + 2 <= data.len(),
    ensures
        characteristics_at(data, offset) == data[offset] + 256 * data[offset + 1],
{
}

/// Disabling keeps a backup that is there and makes one of the executable where
/// none is. Restoring brings the backup back and keeps it; without one it
/// changes nothing.
pub proof fn backups_are_kept(before: ExeFiles, after: ExeFiles)
    ensures
        disabled_from(before, after) ==> {
            &&& after.exe@ == aslr_disabled(before.exe@)
            &&& after.backup matches Some(kept) && match before.backup {
                Some(there) => kept@ == there@,
                None => kept@ == before.exe@,
            }
        },
        restored_from(before, after) ==> match before.backup {
            Some(there) => after.exe@ == there@ && (after.backup matches Some(kept) && kept@
                == there@),
            None => after.exe@ == before.exe@ && after.backup is None,
        },
{
}

} // verus!
