use chip8::font::{parse_font, read_font, FontError, FONT_SIZE};
use chip8::memory::{Memory, ProgramTooLarge, MEMORY_SIZE, PROGRAM_START};

const GLYPHS: [u8; 80] = [
    0xF0, 0x90, 0x90, 0x90, 0xF0, 0x20, 0x60, 0x20, 0x20, 0x70, 0xF0, 0x10, 0xF0, 0x80, 0xF0, 0xF0,
    0x10, 0xF0, 0x10, 0xF0, 0x90, 0x90, 0xF0, 0x10, 0x10, 0xF0, 0x80, 0xF0, 0x10, 0xF0, 0xF0, 0x80,
    0xF0, 0x90, 0xF0, 0xF0, 0x10, 0x20, 0x40, 0x40, 0xF0, 0x90, 0xF0, 0x90, 0xF0, 0xF0, 0x90, 0xF0,
    0x10, 0xF0, 0xF0, 0x90, 0xF0, 0x90, 0x90, 0xE0, 0x90, 0xE0, 0x90, 0xE0, 0xF0, 0x80, 0x80, 0x80,
    0xF0, 0xE0, 0x90, 0x90, 0x90, 0xE0, 0xF0, 0x80, 0xF0, 0x80, 0xF0, 0xF0, 0x80, 0xF0, 0x80, 0x80,
];

fn joined(entries: &[String]) -> String {
    entries.join(",")
}

fn glyph_entries() -> Vec<String> {
    GLYPHS.iter().map(|byte| format!("0x{:02X}", byte)).collect()
}

/// Eighty entries: `entry` first, then 79 zeros.
fn font_starting_with(entry: &str) -> String {
    let mut entries = vec![entry.to_string()];
    for _ in 1..FONT_SIZE {
        entries.push("0".to_string());
    }
    joined(&entries)
}

/// What the standard library makes of one entry.
fn expected_byte(entry: &str) -> Option<u8> {
    let stripped: String = entry.chars().filter(|c| !c.is_whitespace()).collect();
    u8::from_str_radix(stripped.trim_start_matches("0x"), 16).ok()
}

#[test]
fn font_of_eighty_literals_is_read_in_order() {
    assert_eq!(parse_font(&joined(&glyph_entries())), Ok(GLYPHS));
}

#[test]
fn font_with_line_breaks_and_indentation_is_read() {
    let mut text = String::new();
    for (index, entry) in glyph_entries().iter().enumerate() {
        if index > 0 {
            text.push(',');
        }
        if index % 5 == 0 {
            text.push_str("\r\n\t  ");
        } else {
            text.push(' ');
        }
        text.push_str(entry);
    }
    text.push('\n');
    assert_eq!(parse_font(&text), Ok(GLYPHS));
}

#[test]
fn font_with_79_entries_is_rejected() {
    let entries = glyph_entries();
    assert_eq!(parse_font(&joined(&entries[..79])), Err(FontError::WrongEntryCount));
}

#[test]
fn font_with_81_entries_is_rejected() {
    let mut entries = glyph_entries();
    entries.push("0x00".to_string());
    assert_eq!(parse_font(&joined(&entries)), Err(FontError::WrongEntryCount));
}

#[test]
fn font_with_a_trailing_comma_has_81_entries() {
    let mut text = joined(&glyph_entries());
    text.push(',');
    assert_eq!(parse_font(&text), Err(FontError::WrongEntryCount));
}

#[test]
fn empty_font_text_has_one_entry() {
    assert_eq!(parse_font(""), Err(FontError::WrongEntryCount));
    assert_eq!(parse_font(" \n\t"), Err(FontError::WrongEntryCount));
}

#[test]
fn wrong_count_is_reported_before_a_bad_entry() {
    let mut entries = glyph_entries();
    entries[3] = "0xZZ".to_string();
    entries.pop();
    assert_eq!(parse_font(&joined(&entries)), Err(FontError::WrongEntryCount));
}

#[test]
fn font_with_a_bad_entry_is_rejected() {
    for bad in ["0xZZ", "", "0x", "0x100", "100", "-1", "+", "0XF0", "x", "0xx1", "F0h", "é", "0x+",
        "++1", "1-"]
    {
        for position in [0usize, 37, 79] {
            let mut entries = glyph_entries();
            entries[position] = bad.to_string();
            assert_eq!(
                parse_font(&joined(&entries)),
                Err(FontError::InvalidEntry),
                "entry {:?} at {}",
                bad,
                position
            );
        }
    }
}

#[test]
fn font_entry_forms_that_are_accepted() {
    for (entry, byte) in [
        ("0xF0", 0xF0u8),
        ("0xf0", 0xF0),
        ("F0", 0xF0),
        ("f0", 0xF0),
        ("0x0xF0", 0xF0),
        ("0x0x0x1", 1),
        ("+7f", 0x7F),
        ("0x+7F", 0x7F),
        ("0", 0),
        ("00", 0),
        ("0x0", 0),
        ("0x000000000000000000000000ff", 0xFF),
        ("0x0A", 10),
        ("aB", 0xAB),
        ("0 x 4 2", 0x42),
        ("0x\u{a0}4\u{3000}3", 0x43),
    ] {
        let font = parse_font(&font_starting_with(entry));
        assert_eq!(font.map(|bytes| bytes[0]), Ok(byte), "entry {:?}", entry);
    }
}

#[test]
fn font_entries_are_read_as_the_standard_library_reads_hexadecimal() {
    let pieces = ["", "0", "x", "0x", "+", "-", "f", "F", "g", "1", "00", "ff", "10", " ", "9", "a"];
    for first in pieces {
        for second in pieces {
            for third in pieces {
                let entry = format!("{}{}{}", first, second, third);
                let result = parse_font(&font_starting_with(&entry));
                match expected_byte(&entry) {
                    Some(byte) => {
                        assert_eq!(result.map(|bytes| bytes[0]), Ok(byte), "entry {:?}", entry)
                    }
                    None => assert_eq!(result, Err(FontError::InvalidEntry), "entry {:?}", entry),
                }
            }
        }
    }
}

#[test]
fn every_byte_value_can_be_written() {
    for value in 0..=255u8 {
        for entry in [format!("0x{:02X}", value), format!("{:x}", value), format!("0x{:04x}", value)] {
            let font = parse_font(&font_starting_with(&entry));
            assert_eq!(font.map(|bytes| bytes[0]), Ok(value));
        }
    }
}

#[test]
fn memory_holds_the_font_in_its_lowest_eighty_bytes() {
    let memory = Memory::new(&joined(&glyph_entries()));
    for address in 0..FONT_SIZE {
        assert_eq!(memory.get_byte(address, 0), GLYPHS[address]);
        assert_eq!(memory.get_byte(0, address), GLYPHS[address]);
    }
    for address in FONT_SIZE..MEMORY_SIZE {
        assert_eq!(memory.get_byte(address, 0), 0);
    }
}

#[test]
fn memory_from_font_bytes_holds_them_in_its_lowest_eighty_bytes() {
    let mut font = [0u8; 80];
    for (index, byte) in font.iter_mut().enumerate() {
        *byte = 255 - index as u8;
    }
    let memory = Memory::from_font(&font);
    for address in 0..FONT_SIZE {
        assert_eq!(memory.get_byte(address, 0), 255 - address as u8);
    }
    for address in FONT_SIZE..MEMORY_SIZE {
        assert_eq!(memory.get_byte(address, 0), 0);
    }
}

#[test]
fn read_font_gives_the_font_of_eighty_entries() {
    assert_eq!(read_font(&joined(&glyph_entries())), Some(GLYPHS));
}

#[test]
fn read_font_gives_nothing_for_79_or_81_entries() {
    let mut entries = glyph_entries();
    assert_eq!(read_font(&joined(&entries[..79])), None);
    entries.push("0x00".to_string());
    assert_eq!(read_font(&joined(&entries)), None);
    assert_eq!(read_font(""), None);
}

#[test]
fn a_text_to_make_memory_from_is_tested_first() {
    let mut entries = glyph_entries();
    entries[79] = "0x1G".to_string();
    assert_eq!(parse_font(&joined(&entries)), Err(FontError::InvalidEntry));
    entries[79] = "0x80".to_string();
    assert!(parse_font(&joined(&entries)).is_ok());
    let memory = Memory::new(&joined(&entries));
    assert_eq!(memory.get_byte(79, 0), 0x80);
}

#[test]
fn instruction_words_are_big_endian() {
    let memory = Memory::new(&joined(&glyph_entries()));
    assert_eq!(memory.get_instruction(0), 0xF090);
    assert_eq!(memory.get_instruction(4), 0xF020);
    assert_eq!(memory.get_instruction(5), 0x2060);
    assert_eq!(memory.get_instruction(79), 0x8000);
    assert_eq!(memory.get_instruction(4094), 0x0000);
}

#[test]
fn program_is_loaded_verbatim_at_0x200() {
    let mut memory = Memory::new(&joined(&glyph_entries()));
    let program: Vec<u8> = (0..300u32).map(|i| (i * 7 + 1) as u8).collect();
    assert_eq!(PROGRAM_START, 0x200);
    assert_eq!(memory.load_program(&program), Ok(()));
    for address in 0..MEMORY_SIZE {
        let expected = if address < FONT_SIZE {
            GLYPHS[address]
        } else if address >= 0x200 && address < 0x200 + 300 {
            program[address - 0x200]
        } else {
            0
        };
        assert_eq!(memory.get_byte(address, 0), expected);
    }
    assert_eq!(memory.get_instruction(0x200), 0x0108);
    assert_eq!(memory.sprite(0x200, 3), &program[..3]);
    assert_eq!(memory.sprite(4096, 0).len(), 0);
}

#[test]
fn program_of_the_largest_size_fits_and_one_byte_more_does_not() {
    let mut memory = Memory::new(&joined(&glyph_entries()));
    let largest = vec![0xAAu8; MEMORY_SIZE - PROGRAM_START];
    assert_eq!(memory.load_program(&largest), Ok(()));
    assert_eq!(memory.get_byte(4095, 0), 0xAA);
    assert_eq!(memory.get_byte(0x1ff, 0), 0);
    let too_large = vec![0x55u8; MEMORY_SIZE - PROGRAM_START + 1];
    assert_eq!(memory.load_program(&too_large), Err(ProgramTooLarge));
    assert_eq!(memory.get_byte(0x200, 0), 0xAA);
    assert_eq!(memory.get_byte(4095, 0), 0xAA);
}

#[test]
fn empty_program_changes_nothing() {
    let mut memory = Memory::new(&joined(&glyph_entries()));
    assert_eq!(memory.load_program(&[]), Ok(()));
    for address in FONT_SIZE..MEMORY_SIZE {
        assert_eq!(memory.get_byte(address, 0), 0);
    }
}
