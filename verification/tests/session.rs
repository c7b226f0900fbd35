use ntoseye::pe::{in_executable_section, sections, IMAGE_SCN_MEM_EXECUTE};
use ntoseye::session::processor_index_from_backend_thread_id;
use ntoseye::variables::Variables;

#[test]
fn backend_thread_ids_parse_as_zero_based_processors() {
    assert_eq!(processor_index_from_backend_thread_id("p1.1"), Some(0));
    assert_eq!(processor_index_from_backend_thread_id("p1.a"), Some(9));
    assert_eq!(processor_index_from_backend_thread_id("p1.0"), None);
    assert_eq!(processor_index_from_backend_thread_id("bad"), None);
}

#[test]
fn variables_stay_in_order_of_name() {
    let mut vars = Variables::new();
    for (name, value) in [("b", 1), ("_", 2), ("a1", 3), ("a", 4), ("b", 5)] {
        vars.set(name.to_string(), value, format!("{value}"));
    }
    let all: Vec<(&str, u64, &str)> =
        vars.user.iter().map(|v| (v.name.as_str(), v.value, v.source.as_str())).collect();
    assert_eq!(all, vec![("_", 2, "2"), ("a", 4, "4"), ("a1", 3, "3"), ("b", 5, "5")]);
    assert!(vars.unset("a"));
    assert!(!vars.unset("a"));
    assert_eq!(vars.user.len(), 3);
    vars.set_results(vec![9], "ev 9".to_string());
    assert_eq!(vars.results, vec![9]);
    assert_eq!(vars.user.len(), 3);
}

/// The headers of an image with two sections.
fn image() -> Vec<u8> {
    let mut b = vec![0; 0x400];
    let mut put = |at: usize, bytes: &[u8]| b[at..at + bytes.len()].copy_from_slice(bytes);
    put(0, b"MZ");
    put(0x3C, &0x40u32.to_le_bytes());
    put(0x40, b"PE\0\0");
    put(0x44, &0x8664u16.to_le_bytes());
    put(0x46, &2u16.to_le_bytes());
    put(0x54, &0xF0u16.to_le_bytes());
    put(0x58, &0x20Bu16.to_le_bytes());
    put(0x58 + 32, &0x1000u32.to_le_bytes());
    put(0x58 + 36, &0x200u32.to_le_bytes());
    put(0x58 + 56, &0x4000u32.to_le_bytes());
    put(0x58 + 60, &0x400u32.to_le_bytes());
    put(0x58 + 108, &16u32.to_le_bytes());
    for (row, fields) in
        [[0x1000u32, 0x800, 0x600, 0x6000_0020], [0x2000, 0x100, 0x200, 0x4000_0040]].iter().enumerate()
    {
        let at = 0x58 + 0xF0 + 40 * row;
        put(at + 8, &fields[1].to_le_bytes());
        put(at + 12, &fields[0].to_le_bytes());
        put(at + 16, &fields[2].to_le_bytes());
        put(at + 36, &fields[3].to_le_bytes());
    }
    b
}

#[test]
fn section_tables_are_read_from_the_headers() {
    let rows = vec![(0x1000, 0x800, 0x600, 0x6000_0020), (0x2000, 0x100, 0x200, 0x4000_0040)];
    assert_eq!(sections(&image()).unwrap(), rows);
    // Whatever address the bytes lie at.
    for shift in 1..8 {
        let mut shifted = vec![0; shift];
        shifted.extend(image());
        assert_eq!(sections(&shifted[shift..]).unwrap(), rows);
    }
    // Whatever the length is.
    for more in 1..9 {
        let mut longer = image();
        longer.resize(longer.len() + more, 0xFF);
        assert_eq!(sections(&longer).unwrap(), rows);
    }
    // With the headers on every four-byte boundary.
    for later in [4, 8, 12] {
        let mut moved = image();
        moved.splice(0x40..0x40, vec![0; later]);
        moved[0x3C] += later as u8;
        assert_eq!(sections(&moved).unwrap(), rows);
        assert_eq!(sections(&moved[..0x200]).unwrap_err(), "bounds check failed");
    }
    // With the section table on any boundary.
    for later in 1..5 {
        let mut moved = image();
        moved[0x54] += later as u8;
        moved.splice(0x58 + 0xF0..0x58 + 0xF0, vec![0; later]);
        assert_eq!(sections(&moved).unwrap(), rows);
    }
}

#[test]
fn broken_headers_are_refused_with_a_reason() {
    let broken = |at: usize, bytes: &[u8]| {
        let mut b = image();
        b[at..at + bytes.len()].copy_from_slice(bytes);
        b
    };
    let mut crowded = broken(0x46, &97u16.to_le_bytes());
    crowded.resize(0x2000, 0);
    let mut far = broken(0x3C, &0x0100_0004u32.to_le_bytes());
    far.resize(0x2000, 0);
    let mut no_image = vec![0; 64];
    no_image[20] = 1;
    for (bytes, why) in [
        (Vec::new(), "bounds check failed"),
        (image()[..63].to_vec(), "bounds check failed"),
        (no_image, "unknown magic number"),
        (broken(0, b"X"), "unknown magic number"),
        (broken(0x3C, &[0x42]), "address misaligned"),
        (far, "data insanity"),
        (broken(0x3C, &0x400u32.to_le_bytes()), "bounds check failed"),
        (broken(0x40, b"XE"), "unknown magic number"),
        (broken(0x58, &0x107u16.to_le_bytes()), "unknown magic number"),
        (broken(0x58 + 60, &0x401u32.to_le_bytes()), "bounds check failed"),
        (broken(0x58 + 56, &0x3FFu32.to_le_bytes()), "data insanity"),
        (broken(0x58, &0x10Bu16.to_le_bytes()), "try again with correct parser"),
        (crowded, "data insanity"),
        (broken(0x46, &20u16.to_le_bytes()), "bounds check failed"),
    ] {
        assert_eq!(sections(&bytes).unwrap_err(), why);
    }
}

#[test]
fn only_executable_sections_hold_code() {
    let rows = sections(&image()).unwrap();
    assert!(!in_executable_section(&rows, 0xFFF));
    assert!(in_executable_section(&rows, 0x1000));
    assert!(in_executable_section(&rows, 0x17FF));
    assert!(!in_executable_section(&rows, 0x1800));
    assert!(!in_executable_section(&rows, 0x2000));
    // The raw size counts where it is the larger one, and an end past the
    // address space is cut off.
    assert!(in_executable_section(&[(0x10, 0, 8, IMAGE_SCN_MEM_EXECUTE)], 0x17));
    assert!(!in_executable_section(&[(0x10, 0, 0, IMAGE_SCN_MEM_EXECUTE)], 0x10));
    let last = [(0xFFFF_FFF0, 0x20, 0, IMAGE_SCN_MEM_EXECUTE)];
    assert!(in_executable_section(&last, 0xFFFF_FFFE));
    assert!(!in_executable_section(&last, 0xFFFF_FFFF));
}
