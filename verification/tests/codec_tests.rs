use sheet_cleaner::cell_ref;
use sheet_cleaner::column_to_letters;
use sheet_cleaner::letters_to_column;

#[test]
fn column_letters_concrete() {
    assert_eq!(column_to_letters(1), "A");
    assert_eq!(column_to_letters(26), "Z");
    assert_eq!(column_to_letters(27), "AA");
    assert_eq!(column_to_letters(52), "AZ");
    assert_eq!(column_to_letters(702), "ZZ");
    assert_eq!(column_to_letters(703), "AAA");
    assert_eq!(column_to_letters(16384), "XFD");
}

#[test]
fn codec_round_trip_1_to_700() {
    for col in 1usize..=700 {
        let letters = column_to_letters(col);
        assert_eq!(letters_to_column(&letters), Some(col as u64));
    }
}

#[test]
fn letters_to_column_concrete() {
    assert_eq!(letters_to_column("A"), Some(1));
    assert_eq!(letters_to_column("Z"), Some(26));
    assert_eq!(letters_to_column("AA"), Some(27));
    assert_eq!(letters_to_column("AZ"), Some(52));
    assert_eq!(letters_to_column("ZZ"), Some(702));
    assert_eq!(letters_to_column("XFD"), Some(16384));
}

#[test]
fn letters_to_column_rejects_bad_input() {
    assert_eq!(letters_to_column(""), None);
    assert_eq!(letters_to_column("a"), None);
    assert_eq!(letters_to_column("A1"), None);
    assert_eq!(letters_to_column("B6"), None);
    assert_eq!(letters_to_column("ABCDEFGHIJKLM"), None);
}

#[test]
fn cell_ref_concrete() {
    assert_eq!(cell_ref(1, 1), "A1");
    assert_eq!(cell_ref(2, 6), "B6");
    assert_eq!(cell_ref(3, 7), "C7");
    assert_eq!(cell_ref(27, 10), "AA10");
    assert_eq!(cell_ref(702, 1048576), "ZZ1048576");
}
