//! Switching address-space randomisation off in an executable's PE header.
//!
//! An image whose `DllCharacteristics` lack `DYNAMIC_BASE` loads at its
//! preferred base address on every launch, which puts restored memory where
//! the snapshot found it.
use crate::util::bytes::{read_u16, read_u32, u16_at, u16_bytes, u32_at};
use crate::util::error::QuickResumeError;
use crate::util::text::{hex, push_hex};
use vstd::prelude::*;

verus! {

pub const IMAGE_DLLCHARACTERISTICS_DYNAMIC_BASE: u16 = 0x0040;

/// "MZ"
pub const MZ_MAGIC: u16 = 0x5A4D;

/// "PE\0\0"
pub const PE_MAGIC: u32 = 0x0000_4550;

/// The offset of `DllCharacteristics`, or the text of the first complaint.
///
/// The word at `0x3C` locates the PE signature. Behind it come a file header
/// of 20 bytes and the optional header, where the field is at offset 70 for
/// both PE32 and PE32+.
pub open spec fn dll_characteristics_offset(data: Seq<u8>) -> Result<int, Seq<char>> {
    let lfanew = u32_at(data, 0x3C);
    let magic = u16_at(data, lfanew + 24);
    if data.len() < 64 {
        Err("File too small to be a PE"@)
    } else if u16_at(data, 0) != MZ_MAGIC {
        Err("Not a valid PE file (missing MZ)"@)
    } else if lfanew + 4 > data.len() {
        Err("e_lfanew out of range"@)
    } else if u32_at(data, lfanew) != PE_MAGIC {
        Err("Missing PE signature"@)
    } else if lfanew + 26 > data.len() {
        Err("Optional header out of range"@)
    } else if magic != 0x010B && magic != 0x020B {
        Err("Unknown optional header magic: 0x"@ + hex(magic as nat, 4))
    } else if lfanew + 96 > data.len() {
        Err("DllCharacteristics field out of range"@)
    } else {
        Ok(lfanew + 94)
    }
}

/// The value of `DllCharacteristics` at a known offset.
pub open spec fn characteristics_at(data: Seq<u8>, offset: int) -> u16 {
    u16_at(data, offset) as u16
}

/// `flags` with `DYNAMIC_BASE` cleared.
pub open spec fn without_dynamic_base(flags: u16) -> u16 {
    flags & !IMAGE_DLLCHARACTERISTICS_DYNAMIC_BASE
}

/// The image with the two bytes of the field replaced.
pub open spec fn with_characteristics(data: Seq<u8>, offset: int, flags: u16) -> Seq<u8> {
    let bytes = u16_bytes(flags as int);
    data.update(offset, bytes[0]).update(offset + 1, bytes[1])
}

/// The image as it is once randomisation is off. What is no PE stays as it is.
pub open spec fn aslr_disabled(data: Seq<u8>) -> Seq<u8> {
    match dll_characteristics_offset(data) {
        Ok(offset) => with_characteristics(
            data,
            offset,
            without_dynamic_base(characteristics_at(data, offset)),
        ),
        Err(_) => data,
    }
}

fn pe_error(text: &str) -> (e: QuickResumeError)
    ensures
        e.is_pe_parse(text@),
{
    QuickResumeError::PeParse(text.to_string())
}

/// Returns the byte offset of the `DllCharacteristics` field within `data`.
pub fn find_dll_characteristics_offset(data: &[u8]) -> (r: Result<usize, QuickResumeError>)
    ensures
        match dll_characteristics_offset(data@) {
            Ok(offset) => r matches Ok(found) && found == offset,
            Err(text) => r matches Err(e) && e.is_pe_parse(text),
        },
        r matches Ok(found) ==> found + 2 <= data@.len(),
{
    let len: u64 = data.len() as u64;
    if len < 64 {
        return Err(pe_error("File too small to be a PE"));
    }
    if read_u16(data, 0) != MZ_MAGIC {
        return Err(pe_error("Not a valid PE file (missing MZ)"));
    }
    let lfanew: u64 = read_u32(data, 0x3C) as u64;
    if lfanew + 4 > len {
        return Err(pe_error("e_lfanew out of range"));
    }
    if read_u32(data, lfanew as usize) != PE_MAGIC {
        return Err(pe_error("Missing PE signature"));
    }
    let optional_header: u64 = lfanew + 4 + 20;
    if optional_header + 2 > len {
        return Err(pe_error("Optional header out of range"));
    }
    let magic: u16 = read_u16(data, optional_header as usize);
    if magic != 0x010B && magic != 0x020B {
        let mut text = "Unknown optional header magic: 0x".to_string();
        push_hex(&mut text, magic as u64, 4);
        return Err(QuickResumeError::PeParse(text));
    }
    let offset: u64 = optional_header + 70;
    if offset + 2 > len {
        return Err(pe_error("DllCharacteristics field out of range"));
    }
    Ok(offset as usize)
}

/// Returns the current value of the `DllCharacteristics` field of an image.
pub fn read_dll_characteristics(data: &[u8]) -> (r: Result<u16, QuickResumeError>)
    ensures
        match dll_characteristics_offset(data@) {
            Ok(offset) => r matches Ok(flags) && flags == u16_at(data@, offset),
            Err(text) => r matches Err(e) && e.is_pe_parse(text),
        },
{
    match find_dll_characteristics_offset(data) {
        Ok(offset) => Ok(read_u16(data, offset)),
        Err(e) => Err(e),
    }
}

/// What switching randomisation off came to.
#[derive(Debug, PartialEq, Eq, Clone, Copy, Structural)]
pub enum AslrPatch {
    /// The flag was clear already; nothing needs writing.
    AlreadyDisabled { characteristics: u16 },
    Patched { before: u16, after: u16 },
}

/// What is reported for an image whose field held `before`.
pub open spec fn patch_report(before: u16) -> AslrPatch {
    let after = without_dynamic_base(before);
    if before == after {
        AslrPatch::AlreadyDisabled { characteristics: before }
    } else {
        AslrPatch::Patched { before, after }
    }
}

/// Clears `DYNAMIC_BASE` in the image held by `data`.
pub fn clear_dynamic_base(data: &mut Vec<u8>) -> (r: Result<AslrPatch, QuickResumeError>)
    ensures
        final(data)@ == aslr_disabled(old(data)@),
        match dll_characteristics_offset(old(data)@) {
            Ok(offset) => r matches Ok(report) && report == patch_report(
                characteristics_at(old(data)@, offset),
            ),
            Err(text) => r matches Err(e) && e.is_pe_parse(text),
        },
{
    let offset: usize = match find_dll_characteristics_offset(data.as_slice()) {
        Ok(offset) => offset,
        Err(e) => {
            return Err(e);
        },
    };
    let before: u16 = read_u16(data.as_slice(), offset);
    let after: u16 = before & !IMAGE_DLLCHARACTERISTICS_DYNAMIC_BASE;
    if before == after {
        proof {
            assert(with_characteristics(data@, offset as int, before) =~= data@);
        }
        return Ok(AslrPatch::AlreadyDisabled { characteristics: before });
    }
    data.set(offset, (after % 0x100) as u8);
    data.set(offset + 1, (after / 0x100) as u8);
    assert(data@ =~= aslr_disabled(old(data)@));
    Ok(AslrPatch::Patched { before, after })
}

/// An executable and the copy kept beside it.
pub struct ExeFiles {
    pub exe: Vec<u8>,
    pub backup: Option<Vec<u8>>,
}

impl ExeFiles {
    /// The bytes of the backup, if there is one.
    pub open spec fn backup_bytes(self) -> Option<Seq<u8>> {
        match self.backup {
            Some(b) => Some(b@),
            None => None,
        }
    }

    /// What the backup holds once one has been made where none was.
    pub open spec fn kept_bytes(self) -> Seq<u8> {
        match self.backup {
            Some(b) => b@,
            None => self.exe@,
        }
    }
}

fn copy_bytes(bytes: &Vec<u8>) -> (copy: Vec<u8>)
    ensures
        copy@ == bytes@,
{
    let copy = bytes.clone();
    assert(copy@ =~= bytes@);
    copy
}

/// Where the backup of an executable is kept: beside it, under its name and
/// `.bak`.
pub fn backup_path(path: &str) -> (r: String)
    ensures
        r@ == path@ + ".bak"@,
{
    let mut r = path.to_string();
    r.append(".bak");
    r
}

/// Every executable has a backup of its own.
pub proof fn backups_do_not_collide(a: Seq<char>, b: Seq<char>)
    requires
        a + ".bak"@ == b + ".bak"@,
    ensures
        a == b,
{
    let (x, y) = (a + ".bak"@, b + ".bak"@);
    assert(a =~= x.take(x.len() - ".bak"@.len()));
    assert(b =~= y.take(y.len() - ".bak"@.len()));
}

/// Switches randomisation off in the executable held by `exe`. Where there is
/// no backup yet, the first part of the result is what to keep as one, whether
/// or not the header can be parsed.
pub fn patch_executable(exe: &mut Vec<u8>, has_backup: bool) -> (r: (
    Option<Vec<u8>>,
    Result<AslrPatch, QuickResumeError>,
))
    ensures
        final(exe)@ == aslr_disabled(old(exe)@),
        has_backup ==> r.0 is None,
        !has_backup ==> (r.0 matches Some(backup) && backup@ == old(exe)@),
        match dll_characteristics_offset(old(exe)@) {
            Ok(offset) => r.1 matches Ok(report) && report == patch_report(
                characteristics_at(old(exe)@, offset),
            ),
            Err(text) => r.1 matches Err(e) && e.is_pe_parse(text),
        },
{
    let backup = if has_backup {
        None
    } else {
        Some(copy_bytes(exe))
    };
    (backup, clear_dynamic_base(exe))
}

/// Switches randomisation off. An executable without a backup gets one first,
/// and keeps it whether or not the header can be parsed.
pub fn disable_aslr(files: &mut ExeFiles) -> (r: Result<AslrPatch, QuickResumeError>)
    ensures
        disabled_from(*old(files), *final(files)),
        match dll_characteristics_offset(old(files).exe@) {
            Ok(offset) => r matches Ok(report) && report == patch_report(
                characteristics_at(old(files).exe@, offset),
            ),
            Err(text) => r matches Err(e) && e.is_pe_parse(text),
        },
{
    let (backup, result) = patch_executable(&mut files.exe, files.backup.is_some());
    if backup.is_some() {
        files.backup = backup;
    }
    result
}

/// What to put in place of the executable: its backup, if there is one.
/// `backup_path` is where the backup was looked for.
pub fn backup_contents(backup: Option<Vec<u8>>, backup_path: &str) -> (r: Result<
    Vec<u8>,
    QuickResumeError,
>)
    ensures
        match backup {
            Some(kept) => r matches Ok(bytes) && bytes == kept,
            None => r matches Err(e) && e.is_pe_parse("No backup found at "@ + backup_path@),
        },
{
    match backup {
        Some(kept) => Ok(kept),
        None => {
            let mut text = "No backup found at ".to_string();
            text.append(backup_path);
            Err(QuickResumeError::PeParse(text))
        },
    }
}

/// Puts the backup back in place of the executable. `backup_path` is where
/// the backup was looked for.
pub fn restore_aslr(files: &mut ExeFiles, backup_path: &str) -> (r: Result<(), QuickResumeError>)
    ensures
        restored_from(*old(files), *final(files)),
        match old(files).backup {
            Some(_) => r is Ok,
            None => r matches Err(e) && e.is_pe_parse("No backup found at "@ + backup_path@),
        },
{
    let kept = match &files.backup {
        Some(bytes) => Some(copy_bytes(bytes)),
        None => None,
    };
    match backup_contents(kept, backup_path) {
        Ok(bytes) => {
            files.exe = bytes;
            Ok(())
        },
        Err(e) => Err(e),
    }
}

/// Switching randomisation off changes no byte but the two of the field, and
/// leaves the field where it was.
pub proof fn disabling_touches_only_the_field(data: Seq<u8>, offset: int)
    requires
        dll_characteristics_offset(data) == Ok::<int, Seq<char>>(offset),
    ensures
        aslr_disabled(data).len() == data.len(),
        forall|i: int|
            0 <= i < data.len() && i != offset && i != offset + 1 ==> aslr_disabled(data)[i]
                == data[i],
        dll_characteristics_offset(aslr_disabled(data)) == Ok::<int, Seq<char>>(offset),
{
}

/// Afterwards the flag is clear and every other flag is as it was.
pub proof fn disabling_clears_only_dynamic_base(data: Seq<u8>, offset: int)
    requires
        dll_characteristics_offset(data) == Ok::<int, Seq<char>>(offset),
    ensures
        characteristics_at(aslr_disabled(data), offset) == without_dynamic_base(
            characteristics_at(data, offset),
        ),
        characteristics_at(aslr_disabled(data), offset) & IMAGE_DLLCHARACTERISTICS_DYNAMIC_BASE
            == 0,
        characteristics_at(aslr_disabled(data), offset) | IMAGE_DLLCHARACTERISTICS_DYNAMIC_BASE
            == characteristics_at(data, offset) | IMAGE_DLLCHARACTERISTICS_DYNAMIC_BASE,
{
    let flags = characteristics_at(data, offset);
    assert((flags & !0x0040u16) & 0x0040u16 == 0) by (bit_vector);
    assert((flags & !0x0040u16) | 0x0040u16 == flags | 0x0040u16) by (bit_vector);
}

/// Switching randomisation off a second time finds nothing to do.
pub proof fn disabling_twice_is_disabling_once(data: Seq<u8>)
    ensures
        aslr_disabled(aslr_disabled(data)) == aslr_disabled(data),
        dll_characteristics_offset(data) matches Ok(offset) ==> patch_report(
            characteristics_at(aslr_disabled(data), offset),
        ) is AlreadyDisabled,
{
    if let Ok(offset) = dll_characteristics_offset(data) {
        let flags = characteristics_at(data, offset);
        disabling_touches_only_the_field(data, offset);
        disabling_clears_only_dynamic_base(data, offset);
        assert((flags & !0x0040u16) & !0x0040u16 == flags & !0x0040u16) by (bit_vector);
        assert(aslr_disabled(aslr_disabled(data)) =~= aslr_disabled(data));
    }
}

/// `after` is how `files` can look once randomisation has been switched off.
pub open spec fn disabled_from(files: ExeFiles, after: ExeFiles) -> bool {
    &&& after.exe@ == aslr_disabled(files.exe@)
    &&& after.backup_bytes() == Some(files.kept_bytes())
}

/// `after` is how `files` can look once the backup has been put back.
pub open spec fn restored_from(files: ExeFiles, after: ExeFiles) -> bool {
    &&& after.exe@ == files.kept_bytes()
    &&& after.backup_bytes() == files.backup_bytes()
}

/// Restoring undoes disabling, also when randomisation was switched off more
/// than once: the executable that had no backup comes back byte for byte.
pub proof fn restore_undoes_disable(
    pristine: ExeFiles,
    once: ExeFiles,
    twice: ExeFiles,
    after_once: ExeFiles,
    after_twice: ExeFiles,
)
    requires
        pristine.backup is None,
        disabled_from(pristine, once),
        disabled_from(once, twice),
        restored_from(once, after_once),
        restored_from(twice, after_twice),
    ensures
        after_once.exe@ == pristine.exe@,
        after_twice.exe@ == pristine.exe@,
        twice.exe@ == once.exe@,
{
    disabling_twice_is_disabling_once(pristine.exe@);
}

} // verus!
