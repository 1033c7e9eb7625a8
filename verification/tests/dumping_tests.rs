use veritas::movies::parse_dec;
use veritas::movies::Format;
use veritas::movies::Source;
use veritas::roms::hash_from_hex;
use veritas::roms::Rom;
use veritas::roms::RomCache;
use veritas::roms::System;

#[test]
fn rom_digests_match_known_vectors() {
    // The digests recorded for a plain image are the real SHA-1 and MD5
    // of its bytes.
    let data = b"abc".to_vec();
    let pairs = System::N64.hashes(&data);
    assert_eq!(pairs.len(), 1);
    let (sha1, md5) = &pairs[0];
    assert_eq!(
        veritas::roms::Hash::Sha1(sha1.clone()).to_hex(),
        "A9993E364706816ABA3E25717850C26C9CD0D89D"
    );
    assert_eq!(
        veritas::roms::Hash::Md5(md5.clone()).to_hex(),
        "900150983CD24FB0D6963F7D28E17F72"
    );
}

#[test]
fn nes_images_hash_headerless_and_zeroed_variants() {
    // A headered NES image records the whole-image digest, the digest
    // with the 16-byte header stripped, and — when the NES2.0 flag is
    // set — the digest with the header fields zeroed.
    let mut data = vec![0u8; 16];
    data[0] = 0x4E;
    data[7] = 0x08;
    data.extend_from_slice(b"payload");
    let pairs = System::Nes.hashes(&data);
    assert_eq!(pairs.len(), 3);
    let body = b"payload".to_vec();
    let body_pairs = System::N64.hashes(&body);
    assert_eq!(pairs[1], body_pairs[0]);
    let mut zeroed = data.clone();
    for b in zeroed[7..16].iter_mut() {
        *b = 0;
    }
    let zeroed_pairs = System::N64.hashes(&zeroed);
    assert_eq!(pairs[2], zeroed_pairs[0]);
    // without the NES2.0 flag only two pairs are recorded
    let mut plain = data.clone();
    plain[7] = 0;
    assert_eq!(System::Nes.hashes(&plain).len(), 2);
}

#[test]
fn hash_hex_round_trips() {
    let text = "A9993E364706816ABA3E25717850C26C9CD0D89D";
    match hash_from_hex(text) {
        Some(veritas::roms::Hash::Sha1(bytes)) => {
            assert_eq!(bytes.len(), 20);
            assert_eq!(veritas::roms::Hash::Sha1(bytes).to_hex(), text);
        },
        _ => panic!("a 40-character hex string names a SHA-1 digest"),
    }
    assert!(matches!(
        hash_from_hex("900150983cd24fb0d6963f7d28e17f72"),
        Some(veritas::roms::Hash::Md5(_))
    ));
    assert!(hash_from_hex("abcd").is_none());
    assert!(hash_from_hex("ZZ993E364706816ABA3E25717850C26C9CD0D89D").is_none());
}

#[test]
fn system_parse_prefers_magic_numbers() {
    let ines = vec![0x4E, 0x45, 0x53, 0x1A, 0, 0];
    assert_eq!(System::parse(&ines, "bin"), Some(System::Nes));
    let z64 = vec![0x80, 0x37, 0x12, 0x40];
    assert_eq!(System::parse(&z64, ""), Some(System::N64));
    assert_eq!(System::parse(&vec![], "nes"), Some(System::Nes));
    assert_eq!(System::parse(&vec![0, 1], "z64"), Some(System::N64));
    assert_eq!(System::parse(&vec![], "n64"), Some(System::N64));
    assert_eq!(System::parse(&vec![], "a26"), Some(System::Atari2600));
    assert_eq!(System::parse(&vec![], "gb"), None);
}

#[test]
fn rom_cache_search_finds_first_match() {
    let rom = |name: &str, sha1: Vec<u8>| Rom {
        path: name.to_string(),
        system: System::Nes,
        sha1,
        md5: vec![0; 16],
    };
    let cache = RomCache {
        roms: vec![rom("a", vec![1; 20]), rom("b", vec![2; 20]), rom("c", vec![2; 20])],
    };
    assert_eq!(cache.search(&veritas::roms::Hash::Sha1(vec![2; 20])), Some(1));
    assert_eq!(cache.search(&veritas::roms::Hash::Sha1(vec![9; 20])), None);
    assert_eq!(cache.search(&veritas::roms::Hash::Md5(vec![0; 16])), Some(0));
    assert!(cache.roms[1].compare_hash(&veritas::roms::Hash::Sha1(vec![2; 20])));
    assert!(!cache.roms[1].compare_hash(&veritas::roms::Hash::Md5(vec![2; 16])));
}

#[test]
fn movie_format_from_extension() {
    assert_eq!(Format::from_extension("bk2"), Some(Format::Bk2));
    assert_eq!(Format::from_extension("BK2"), Some(Format::Bk2));
    assert_eq!(Format::from_extension("Bk2"), Some(Format::Bk2));
    assert_eq!(Format::from_extension("fm2"), Some(Format::Fm2));
    assert_eq!(Format::from_extension("fM2"), Some(Format::Fm2));
    assert_eq!(Format::from_extension("gmv"), Some(Format::Gmv));
    assert_eq!(Format::from_extension("GMv"), Some(Format::Gmv));
    assert_eq!(Format::from_extension("smv"), None);
}

#[test]
fn movie_source_parse() {
    assert_eq!(Source::parse("1234M"), Some(Source::Publication(1234)));
    assert_eq!(Source::parse("77s"), Some(Source::Submission(77)));
    assert_eq!(Source::parse("#637869332153615356"), Some(Source::Userfile(637869332153615356)));
    assert_eq!(Source::parse("movie.bk2"), None);
    assert_eq!(Source::parse("M"), None);
    assert_eq!(Source::parse(""), None);
    // ids past the 32-bit range are refused rather than wrapped
    assert_eq!(Source::parse("99999999999M"), None);
}

#[test]
fn decimal_parse_is_exact() {
    assert_eq!(parse_dec(b"0"), Some(0));
    assert_eq!(parse_dec(b"18446744073709551615"), Some(u64::MAX));
    assert_eq!(parse_dec(b"18446744073709551616"), None);
    assert_eq!(parse_dec(b""), None);
    assert_eq!(parse_dec(b"12a"), None);
}

#[test]
fn rom_cache_drops_duplicate_entries() {
    let rom = Rom {
        path: String::from("a"),
        system: System::Nes,
        sha1: vec![1; 20],
        md5: vec![2; 16],
    };
    let mut cache = RomCache::new();
    assert!(cache.add_rom(rom.clone()));
    assert!(!cache.add_rom(rom.clone()));
    assert_eq!(cache.roms.len(), 1);
    // the same digests from another path are a different dump
    let other = Rom { path: String::from("b"), ..rom };
    assert!(cache.add_rom(other));
    assert_eq!(cache.roms.len(), 2);
}
