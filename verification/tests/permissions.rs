use lr::owner::{format_mode, mk_triple, Owner};

#[test]
fn mode_755_reads_rwxr_xr_x() {
    assert_eq!(format_mode(0o755), "rwxr-xr-x");
}

#[test]
fn mode_644_reads_rw_r_r() {
    assert_eq!(format_mode(0o644), "rw-r--r--");
}

#[test]
fn mode_zero_is_all_dashes() {
    assert_eq!(format_mode(0o000), "---------");
}

#[test]
fn mode_777_sets_every_letter() {
    assert_eq!(format_mode(0o777), "rwxrwxrwx");
}

#[test]
fn mode_text_has_nine_characters_from_the_alphabet() {
    for mode in 0..0o1000u32 {
        let text = format_mode(mode);
        assert_eq!(text.chars().count(), 9);
        assert!(text.chars().all(|c| c == 'r' || c == 'w' || c == 'x' || c == '-'));
    }
}

#[test]
fn each_position_follows_one_bit() {
    let letters = ['r', 'w', 'x'];
    for mode in 0..0o1000u32 {
        let text: Vec<char> = format_mode(mode).chars().collect();
        for (i, shown) in text.iter().enumerate() {
            let bit = 0o400u32 >> i;
            let expected = if mode & bit == 0 { '-' } else { letters[i % 3] };
            assert_eq!(*shown, expected);
        }
    }
}

#[test]
fn bits_above_the_low_nine_are_ignored() {
    assert_eq!(format_mode(0o104755), "rwxr-xr-x");
    assert_eq!(format_mode(0o40775), "rwxrwxr-x");
    assert_eq!(format_mode(0o7000), "---------");
    assert_eq!(format_mode(u32::MAX), "rwxrwxrwx");
}

#[test]
fn masks_follow_posix_positions() {
    assert_eq!(Owner::User.masks(), [0o400, 0o200, 0o100]);
    assert_eq!(Owner::Group.masks(), [0o040, 0o020, 0o010]);
    assert_eq!(Owner::Other.masks(), [0o004, 0o002, 0o001]);
}

#[test]
fn triple_of_each_class() {
    assert_eq!(mk_triple(0o754, Owner::User), "rwx");
    assert_eq!(mk_triple(0o754, Owner::Group), "r-x");
    assert_eq!(mk_triple(0o754, Owner::Other), "r--");
    assert_eq!(mk_triple(0o200, Owner::User), "-w-");
    assert_eq!(mk_triple(0o001, Owner::Other), "--x");
}
