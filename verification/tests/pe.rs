use quick_resume::util::error::QuickResumeError;
use quick_resume::util::pe::{
    backup_contents, backup_path, clear_dynamic_base, disable_aslr,
    find_dll_characteristics_offset, patch_executable, read_dll_characteristics, restore_aslr,
    AslrPatch, ExeFiles,
};

const LFANEW: usize = 0x80;

fn image(magic: u16, characteristics: u16) -> Vec<u8> {
    let mut data = vec![0xAAu8; 0x200];
    data[0] = 0x4D;
    data[1] = 0x5A;
    data[0x3C..0x40].copy_from_slice(&(LFANEW as u32).to_le_bytes());
    data[LFANEW..LFANEW + 4].copy_from_slice(b"PE\0\0");
    data[LFANEW + 24..LFANEW + 26].copy_from_slice(&magic.to_le_bytes());
    data[LFANEW + 94..LFANEW + 96].copy_from_slice(&characteristics.to_le_bytes());
    data
}

fn complaint(data: &[u8]) -> String {
    match find_dll_characteristics_offset(data) {
        Err(QuickResumeError::PeParse(text)) => text,
        other => panic!("{:?}", other),
    }
}

#[test]
fn field_is_found_in_both_formats() {
    for magic in [0x010B, 0x020B] {
        let data = image(magic, 0x8160);
        assert_eq!(find_dll_characteristics_offset(&data).unwrap(), LFANEW + 94);
        assert_eq!(read_dll_characteristics(&data).unwrap(), 0x8160);
    }
}

#[test]
fn every_complaint_has_its_text() {
    assert_eq!(complaint(&[0u8; 63]), "File too small to be a PE");
    assert_eq!(complaint(&[0u8; 64]), "Not a valid PE file (missing MZ)");

    let mut far = image(0x20B, 0);
    far[0x3C..0x40].copy_from_slice(&0xFFFF_FFFFu32.to_le_bytes());
    assert_eq!(complaint(&far), "e_lfanew out of range");

    let mut unsigned = image(0x20B, 0);
    unsigned[LFANEW] = 0;
    assert_eq!(complaint(&unsigned), "Missing PE signature");

    assert_eq!(
        complaint(&image(0x20B, 0)[..LFANEW + 25]),
        "Optional header out of range"
    );
    assert_eq!(
        complaint(&image(0x1BC, 0)),
        "Unknown optional header magic: 0x01BC"
    );
    assert_eq!(
        complaint(&image(0x20B, 0)[..LFANEW + 95]),
        "DllCharacteristics field out of range"
    );
    assert!(find_dll_characteristics_offset(&image(0x20B, 0)[..LFANEW + 96]).is_ok());
    assert!(matches!(
        read_dll_characteristics(&[0u8; 63]),
        Err(QuickResumeError::PeParse(_))
    ));
}

#[test]
fn only_the_flag_is_cleared() {
    let pristine = image(0x20B, 0x8160);
    let mut data = pristine.clone();
    assert_eq!(
        clear_dynamic_base(&mut data).unwrap(),
        AslrPatch::Patched { before: 0x8160, after: 0x8120 }
    );
    for i in 0..data.len() {
        if i != LFANEW + 94 && i != LFANEW + 95 {
            assert_eq!(data[i], pristine[i]);
        }
    }
    assert_eq!(data[LFANEW + 94..LFANEW + 96], [0x20, 0x81]);
    assert_eq!(
        clear_dynamic_base(&mut data).unwrap(),
        AslrPatch::AlreadyDisabled { characteristics: 0x8120 }
    );
}

#[test]
fn what_is_no_image_stays_as_it_is() {
    let mut data = vec![1u8; 100];
    assert!(clear_dynamic_base(&mut data).is_err());
    assert_eq!(data, vec![1u8; 100]);
}

#[test]
fn restoring_undoes_disabling() {
    let pristine = image(0x10B, 0x0040);
    let mut files = ExeFiles { exe: pristine.clone(), backup: None };
    assert_eq!(
        disable_aslr(&mut files).unwrap(),
        AslrPatch::Patched { before: 0x0040, after: 0 }
    );
    assert_eq!(files.backup, Some(pristine.clone()));
    assert_ne!(files.exe, pristine);
    assert_eq!(
        disable_aslr(&mut files).unwrap(),
        AslrPatch::AlreadyDisabled { characteristics: 0 }
    );
    assert_eq!(files.backup, Some(pristine.clone()));
    assert!(restore_aslr(&mut files, "Game.exe.bak").is_ok());
    assert_eq!(files.exe, pristine);
}

#[test]
fn an_existing_backup_is_kept() {
    let mut files = ExeFiles { exe: image(0x20B, 0x40), backup: Some(vec![1, 2, 3]) };
    assert!(disable_aslr(&mut files).is_ok());
    assert_eq!(files.backup, Some(vec![1, 2, 3]));
}

#[test]
fn a_backup_is_made_even_of_what_is_no_image() {
    let mut files = ExeFiles { exe: vec![9u8; 70], backup: None };
    assert!(disable_aslr(&mut files).is_err());
    assert_eq!(files.backup, Some(vec![9u8; 70]));
    assert_eq!(files.exe, vec![9u8; 70]);
}

#[test]
fn restoring_without_a_backup_fails() {
    let mut files = ExeFiles { exe: vec![1, 2], backup: None };
    match restore_aslr(&mut files, "C:\\Game.exe.bak") {
        Err(QuickResumeError::PeParse(text)) => {
            assert_eq!(text, "No backup found at C:\\Game.exe.bak")
        }
        other => panic!("{:?}", other),
    }
    assert_eq!(files.exe, vec![1, 2]);
}

#[test]
fn backups_have_names_of_their_own() {
    assert_eq!(backup_path("Mini Metro.exe"), "Mini Metro.exe.bak");
    assert_eq!(backup_path("C:\\Games\\game.dll"), "C:\\Games\\game.dll.bak");
    assert_ne!(backup_path("game.exe"), backup_path("game.dll"));
}

#[test]
fn a_backup_is_asked_for_only_where_there_is_none() {
    let pristine = image(0x20B, 0x8160);
    let mut exe = pristine.clone();
    let (backup, outcome) = patch_executable(&mut exe, true);
    assert_eq!(backup, None);
    assert_eq!(outcome.unwrap(), AslrPatch::Patched { before: 0x8160, after: 0x8120 });
    let mut again = pristine.clone();
    let (backup, outcome) = patch_executable(&mut again, false);
    assert_eq!(backup, Some(pristine));
    assert!(outcome.is_ok());
    assert_eq!(again, exe);
    let (backup, outcome) = patch_executable(&mut vec![3u8; 10], false);
    assert_eq!(backup, Some(vec![3u8; 10]));
    assert!(outcome.is_err());
}

#[test]
fn a_backup_is_put_back_as_it_is() {
    assert_eq!(backup_contents(Some(vec![1, 2]), "a.exe.bak").unwrap(), vec![1, 2]);
    match backup_contents(None, "a.exe.bak") {
        Err(QuickResumeError::PeParse(text)) => {
            assert_eq!(text, "No backup found at a.exe.bak")
        }
        other => panic!("{:?}", other),
    }
}
