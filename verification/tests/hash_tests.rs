use assoc_guard::hash::compute_user_choice_hash;
use assoc_guard::hash::compute_user_choice_hash_with_experience;
use assoc_guard::hash::dword_data;
use assoc_guard::hash::length_in_dwords;
use assoc_guard::hash::utf16le_bytes;
use assoc_guard::hash::USER_EXPERIENCE;

#[test]
fn hash_vector_3g2() {
    let hash = compute_user_choice_hash(
        ".3g2",
        "S-1-5-21-819709642-920330688-1657285119-500",
        "WMP11.AssocFile.3G2",
        "01d4d98267246000",
    );
    assert_eq!(hash, "PCCqEmkvW2Y=");
}

#[test]
fn hash_vector_txtfile() {
    let hash = compute_user_choice_hash(
        ".txt",
        "S-1-5-21-463486358-3398762107-1964875780-1001",
        "txtfile",
        "01d3442a29887400",
    );
    assert_eq!(hash, "PGINlytwZJo=");
}

#[test]
fn hash_vector_mp4_potplayer() {
    let hash = compute_user_choice_hash(
        ".mp4",
        "S-1-5-21-463486358-3398762107-1964875780-1001",
        "PotPlayer.mp4",
        "01d4d98267246000",
    );
    assert_eq!(hash, "bqwC5h8a7rY=");
}

#[test]
fn hash_is_deterministic() {
    let a = compute_user_choice_hash(".txt", "S-1-5-21-1-2-3-1000", "txtfile", "01d3442a29887400");
    let b = compute_user_choice_hash(".txt", "S-1-5-21-1-2-3-1000", "txtfile", "01d3442a29887400");
    assert_eq!(a, b);
}

#[test]
fn explicit_experience_matches_default() {
    let a = compute_user_choice_hash(
        ".mp4",
        "S-1-5-21-463486358-3398762107-1964875780-1001",
        "PotPlayer.mp4",
        "01d4d98267246000",
    );
    let b = compute_user_choice_hash_with_experience(
        ".mp4",
        "S-1-5-21-463486358-3398762107-1964875780-1001",
        "PotPlayer.mp4",
        "01d4d98267246000",
        USER_EXPERIENCE,
    );
    assert_eq!(a, b);
}

#[test]
fn different_experience_changes_hash() {
    let a = compute_user_choice_hash(
        ".mp4",
        "S-1-5-21-463486358-3398762107-1964875780-1001",
        "PotPlayer.mp4",
        "01d4d98267246000",
    );
    let b = compute_user_choice_hash_with_experience(
        ".mp4",
        "S-1-5-21-463486358-3398762107-1964875780-1001",
        "PotPlayer.mp4",
        "01d4d98267246000",
        "another marker",
    );
    assert_ne!(a, b);
}

#[test]
fn utf16le_bytes_little_endian() {
    let bytes = utf16le_bytes("a\u{4e2d}");
    assert_eq!(bytes, vec![0x61, 0x00, 0x2d, 0x4e]);
}

#[test]
fn utf16le_bytes_surrogate_pair() {
    let bytes = utf16le_bytes("\u{1f600}");
    assert_eq!(bytes, vec![0x3d, 0xd8, 0x00, 0xde]);
}

#[test]
fn length_in_dwords_rounds_down_to_even() {
    assert_eq!(length_in_dwords(0), 0);
    assert_eq!(length_in_dwords(7), 0);
    assert_eq!(length_in_dwords(8), 2);
    assert_eq!(length_in_dwords(12), 2);
    assert_eq!(length_in_dwords(16), 4);
}

#[test]
fn dword_data_reads_le_words() {
    let words = dword_data(&vec![1, 0, 0, 0, 2, 0, 0, 0, 9, 9, 9]);
    assert_eq!(words, vec![1u32, 2u32]);
}
