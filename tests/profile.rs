use base64::engine::general_purpose;
use base64::Engine;
use ios_fonts_configurator::{
    escape_markup, file_base_name, format_uuid, generate_uuid, wrap_text, wrapped_base64,
    MobileConfig, ProfileError, CONSENT_TEXT,
};
use std::collections::HashSet;

fn dummy_font(len: usize) -> Vec<u8> {
    (0..len).map(|i| (i * 7 % 251) as u8).collect()
}

fn unwrap_block(block: &str) -> String {
    block.chars().filter(|c| *c != '\n' && *c != ' ').collect()
}

fn is_canonical(s: &str) -> bool {
    s.len() == 36
        && s.chars().enumerate().all(|(i, c)| {
            if i == 8 || i == 13 || i == 18 || i == 23 {
                c == '-'
            } else {
                c.is_ascii_hexdigit() && !c.is_ascii_uppercase()
            }
        })
}

fn data_blocks(doc: &str) -> Vec<String> {
    doc.split("<data>")
        .skip(1)
        .map(|rest| rest.split("</data>").next().unwrap().to_string())
        .collect()
}

#[test]
fn base64_block_round_trips() {
    for len in [1usize, 2, 3, 47, 48, 49, 100, 1000] {
        let data = dummy_font(len);
        let block = wrapped_base64(&data);
        let decoded = general_purpose::STANDARD.decode(unwrap_block(&block)).unwrap();
        assert_eq!(decoded, data);
    }
}

#[test]
fn base64_block_has_exact_text() {
    assert_eq!(wrapped_base64(b"Man"), "TWFu");
    assert_eq!(wrapped_base64(b"Ma"), "TWE=");
    assert_eq!(wrapped_base64(&[]), "");
}

#[test]
fn base64_block_lines_are_sixty_four_wide() {
    let data = dummy_font(100);
    let block = wrapped_base64(&data);
    let lines: Vec<&str> = block.split("\n        ").collect();
    assert_eq!(lines.len(), 3);
    assert_eq!(lines[0].len(), 64);
    assert_eq!(lines[1].len(), 64);
    assert_eq!(lines[2].len(), 8);
}

#[test]
fn wrap_text_cuts_exact_lines() {
    let text = "A".repeat(130);
    let expected = format!("{}\n        {}\n        AA", "A".repeat(64), "A".repeat(64));
    assert_eq!(wrap_text(&text), expected);
    assert_eq!(wrap_text(&"B".repeat(64)), "B".repeat(64));
    assert_eq!(wrap_text(""), "");
}

#[test]
fn escape_markup_replaces_special_characters() {
    assert_eq!(escape_markup("A&B<C>\"D'"), "A&amp;B&lt;C&gt;&quot;D&apos;");
    assert_eq!(escape_markup("plain"), "plain");
    assert_eq!(escape_markup(""), "");
}

#[test]
fn base_name_is_last_component() {
    assert_eq!(file_base_name("fonts/sub/Test.ttf"), "Test.ttf");
    assert_eq!(file_base_name("Test.ttf"), "Test.ttf");
    assert_eq!(file_base_name("fonts/"), "");
}

#[test]
fn format_uuid_exact_value() {
    assert_eq!(
        format_uuid(0x0123_4567_89ab_cdef, 0x0123_4567_89ab_cdef),
        "01234567-89ab-4def-8123-456789abcdef"
    );
    assert_eq!(format_uuid(0, 0), "00000000-0000-4000-8000-000000000000");
    assert_eq!(
        format_uuid(u64::MAX, u64::MAX),
        "ffffffff-ffff-4fff-bfff-ffffffffffff"
    );
}

#[test]
fn generated_uuids_are_canonical_and_distinct() {
    let mut seen = HashSet::new();
    for _ in 0..10_000 {
        let id = generate_uuid();
        assert!(is_canonical(&id), "{id}");
        assert!(seen.insert(id));
    }
}

#[test]
fn new_profile_is_empty_with_identity() {
    let config = MobileConfig::new("My Fonts".to_string(), "com.example.fonts".to_string());
    assert_eq!(config.payload_display_name, "My Fonts");
    assert_eq!(config.payload_identifier, "com.example.fonts");
    assert_eq!(config.consent_text, CONSENT_TEXT);
    assert!(config.fonts.is_empty());
    assert!(is_canonical(&config.payload_uuid));
}

#[test]
fn entry_identifiers_follow_profile_identifier() {
    let mut config = MobileConfig::with_seed("F".to_string(), "com.example.fonts".to_string(), 42);
    config.add_font("a/One.ttf", Ok(dummy_font(10)), None).unwrap();
    config.add_font("a/Two.otf", Ok(dummy_font(20)), None).unwrap();
    let first = &config.fonts[0];
    assert_eq!(first.identifier, format!("com.example.fonts.{}.fontpayload", first.uuid));
    assert_eq!(first.uuid, format_uuid(42, 1));
    assert_eq!(config.fonts[1].uuid, format_uuid(42, 2));
    assert_eq!(config.payload_uuid, format_uuid(42, 0));
    assert_ne!(config.fonts[0].uuid, config.fonts[1].uuid);
    assert_ne!(config.fonts[0].uuid, config.payload_uuid);
}

#[test]
fn entry_name_defaults() {
    let mut config = MobileConfig::with_seed("F".to_string(), "id".to_string(), 1);
    config.add_font("dir/Sans.ttf", Ok(vec![1]), None).unwrap();
    config.add_font("dir/Serif.ttf", Ok(vec![2]), Some("Serif Bold".to_string())).unwrap();
    config.add_font("dir/", Ok(vec![3]), None).unwrap();
    assert_eq!(config.fonts[0].name, "Sans.ttf");
    assert_eq!(config.fonts[1].name, "Serif Bold");
    assert_eq!(config.fonts[2].name, "Unknown");
    assert_eq!(config.fonts[1].data, vec![2]);
}

#[test]
fn render_twice_is_identical() {
    let mut config = MobileConfig::new("My Fonts".to_string(), "com.example.fonts".to_string());
    config.add_font("Test.ttf", Ok(dummy_font(300)), None).unwrap();
    config.add_font("Other.otf", Ok(dummy_font(5)), None).unwrap();
    assert_eq!(config.generate_xml(), config.generate_xml());
}

#[test]
fn same_seed_renders_same_document() {
    let build = || {
        let mut c = MobileConfig::with_seed("N".to_string(), "com.x".to_string(), 7);
        c.add_font("x.ttf", Ok(dummy_font(9)), None).unwrap();
        c.generate_xml()
    };
    assert_eq!(build(), build());
}

#[test]
fn one_dict_per_entry_in_order() {
    let mut config = MobileConfig::new("My Fonts".to_string(), "com.example.fonts".to_string());
    for name in ["First.ttf", "Second.otf", "Third.woff"] {
        config.add_font(name, Ok(dummy_font(30)), None).unwrap();
    }
    let doc = config.generate_xml();
    assert_eq!(doc.matches("<key>Font</key>").count(), 3);
    assert_eq!(doc.matches("<string>com.apple.font</string>").count(), 3);
    assert_eq!(doc.matches("<key>PayloadContent</key>").count(), 1);
    let a = doc.find("First.ttf").unwrap();
    let b = doc.find("Second.otf").unwrap();
    let c = doc.find("Third.woff").unwrap();
    assert!(a < b && b < c);
    for font in &config.fonts {
        assert_eq!(doc.matches(font.uuid.as_str()).count(), 2);
    }
}

#[test]
fn saving_empty_profile_fails() {
    let config = MobileConfig::new("My Fonts".to_string(), "com.example.fonts".to_string());
    assert!(matches!(config.document_to_save(), Err(ProfileError::EmptyProfile)));
}

#[test]
fn saving_profile_gives_rendered_document() {
    let mut config = MobileConfig::new("My Fonts".to_string(), "com.example.fonts".to_string());
    config.add_font("Test.ttf", Ok(dummy_font(3)), None).unwrap();
    match config.document_to_save() {
        Ok(doc) => assert_eq!(doc, config.generate_xml()),
        Err(e) => panic!("{e:?}"),
    }
}

#[test]
fn failed_read_leaves_profile_unchanged() {
    let mut config = MobileConfig::new("My Fonts".to_string(), "com.example.fonts".to_string());
    config.add_font("Good.ttf", Ok(dummy_font(4)), None).unwrap();
    let r = config.add_font("missing/Nope.ttf", Err("No such file".to_string()), None);
    match r {
        Err(ProfileError::FontReadError { path, cause }) => {
            assert_eq!(path, "missing/Nope.ttf");
            assert_eq!(cause, "No such file");
        }
        other => panic!("{other:?}"),
    }
    assert_eq!(config.fonts.len(), 1);
}

#[test]
fn end_to_end_single_font() {
    let mut config = MobileConfig::new("My Fonts".to_string(), "com.example.fonts".to_string());
    config.add_font("fonts/Test.ttf", Ok(dummy_font(100)), None).unwrap();
    let doc = config.generate_xml();
    assert!(doc.starts_with("<?xml version=\"1.0\" encoding=\"UTF-8\" ?>\n<!DOCTYPE plist"));
    assert!(doc.ends_with("</dict>\n</plist>\n"));
    assert!(doc.contains("PayloadType</key>\n  <string>Configuration</string>"));
    assert!(doc.contains("com.apple.font"));
    assert!(doc.contains("<string>Test.ttf</string>"));
    assert!(doc.contains("<string>My Fonts</string>"));
    assert!(doc.contains("<key>PayloadRemovalDisallowed</key>\n  <false />"));
    assert!(doc.contains("<key>PayloadVersion</key>\n  <integer>1</integer>"));
    let blocks = data_blocks(&doc);
    assert_eq!(blocks.len(), 1);
    let decoded = general_purpose::STANDARD.decode(unwrap_block(&blocks[0])).unwrap();
    assert_eq!(decoded.len(), 100);
    assert_eq!(decoded, dummy_font(100));
}

#[test]
fn end_to_end_override_name() {
    let mut config = MobileConfig::new("My Fonts".to_string(), "com.example.fonts".to_string());
    config
        .add_font("fonts/Test.ttf", Ok(dummy_font(100)), Some("Fancy".to_string()))
        .unwrap();
    let doc = config.generate_xml();
    assert!(doc.contains("<key>Name</key>\n        <string>Fancy</string>"));
    assert!(!doc.contains("Test.ttf"));
}

#[test]
fn text_values_are_escaped_in_document() {
    let mut config = MobileConfig::new("Fonts & <More>".to_string(), "com.example.fonts".to_string());
    config.add_font("x.ttf", Ok(vec![0]), Some("A\"B'C".to_string())).unwrap();
    let doc = config.generate_xml();
    assert!(doc.contains("<string>Fonts &amp; &lt;More&gt;</string>"));
    assert!(doc.contains("<string>A&quot;B&apos;C</string>"));
}
