//! Tests of the surrounding engine logic: harmonic parameters, chapel
//! inference, room planning, codex lookups, flag parsing and the morph
//! rule.

use cathedral_forge::audio::{
    clamp_to_hearing_range, solfeggio_frequencies, solfeggio_frequency, ND_SAFE_AMPLITUDE_MILLI,
    ND_SAFE_FADE_MS,
};
use cathedral_forge::cli::{get_flag, get_flag_default, morph_xp, pick_quote, ArcanaEntry};
use cathedral_forge::codex::{CathedralCore, TarotCard};
use cathedral_forge::grimoire::{
    build_registry, chapel_scene_text, escape_godot, infer_chapel_profile, resolve_library_id,
    ChapelProfile, LibraryEntry, LibraryMetadata,
};
use cathedral_forge::rooms;
use cathedral_forge::rooms::{
    codex_node_for_task, create_room_layout, fan_triangulation, find_entry, geometry_transform,
    gltf_children, is_entry_file, map_entry_to_art_type, map_entry_to_frequency,
    transform_scale_milli, transform_spin_milliradians, EsotericEntry, GeometryTransform,
    LibraryDataset,
};

fn entry(name: &str, element: Option<&str>, geometry: Option<&str>) -> EsotericEntry {
    EsotericEntry {
        name: name.to_string(),
        element: element.map(|s| s.to_string()),
        geometry: geometry.map(|s| s.to_string()),
        music_profile: None,
        color: None,
        angel: None,
        demon: None,
        deity: None,
        healing_profile: None,
        art_style: None,
    }
}

#[test]
fn test_solfeggio_frequencies() {
    let table = solfeggio_frequencies();
    assert_eq!(table.len(), 9);
    assert_eq!(table[4] as f32, 528.0);
}

#[test]
fn test_nd_safe_amplitude() {
    assert!((ND_SAFE_AMPLITUDE_MILLI as f32) / 1000.0 <= 0.2);
    assert!((ND_SAFE_FADE_MS as f64) / 1000.0 >= 0.1);
}

#[test]
fn test_frequency_mapping() {
    let fire_entry = entry("Fire Element", Some("fire"), None);
    assert_eq!(map_entry_to_frequency(&fire_entry), 528);
    assert_eq!(map_entry_to_frequency(&entry("w", Some("water"), None)), 639);
    assert_eq!(map_entry_to_frequency(&entry("x", Some("quintessence"), None)), 440);
    assert_eq!(map_entry_to_frequency(&entry("y", None, None)), 440);
}

#[test]
fn solfeggio_index_bounds() {
    assert_eq!(solfeggio_frequency(4), Some(528));
    assert_eq!(solfeggio_frequency(0), Some(174));
    assert_eq!(solfeggio_frequency(9), None);
}

#[test]
fn hearing_range_clamp() {
    assert_eq!(clamp_to_hearing_range(5), 20_000);
    assert_eq!(clamp_to_hearing_range(440_000), 440_000);
    assert_eq!(clamp_to_hearing_range(25_000_000), 20_000_000);
    assert_eq!(clamp_to_hearing_range(-3), 20_000);
}

fn meta(id: &str, title: &str) -> LibraryMetadata {
    LibraryMetadata {
        id: id.to_string(),
        title: title.to_string(),
        author: None,
        year: None,
        public_domain: None,
        primary_theme: None,
        license_note: None,
        source_url: None,
        structure: Vec::new(),
    }
}

#[test]
fn chapel_inference_follows_first_matching_rule() {
    let p = infer_chapel_profile(&meta("liber_777", "Liber 777"));
    assert_eq!(p.domain, "kabbalah");
    assert_eq!(p.chapel_id, "stone_grimoire/kabbalah_chapel");
    assert_eq!(p.color_profile.as_deref(), Some("#ffffff"));
    assert_eq!(p.sound_profile.as_deref(), Some("choir_celestial"));

    let p = infer_chapel_profile(&meta("liber_al", "Liber AL vel Legis"));
    assert_eq!(p.domain, "thelemic");

    let p = infer_chapel_profile(&meta("changes", "The I Ching"));
    assert_eq!(p.domain, "iching");

    let p = infer_chapel_profile(&meta("soyga_tables", "Tables"));
    assert_eq!(p.domain, "cipher");

    let p = infer_chapel_profile(&meta("herbal", "A Curious Herbal"));
    assert_eq!(p.domain, "general_esoteric");
    assert_eq!(p.chapel_id, "stone_grimoire/unified_library");
}

#[test]
fn chapel_inference_ignores_ascii_case() {
    let p = infer_chapel_profile(&meta("KABBALAH_STUDY", "Notes"));
    assert_eq!(p.domain, "kabbalah");
    let p = infer_chapel_profile(&meta("x", "ENOCHIAN calls"));
    assert_eq!(p.domain, "cipher");
}

#[test]
fn library_id_falls_back_to_folder_name() {
    assert_eq!(resolve_library_id(&"".to_string(), "folder_7"), "folder_7");
    assert_eq!(resolve_library_id(&"   ".to_string(), "folder_7"), "folder_7");
    assert_eq!(resolve_library_id(&"given".to_string(), "folder_7"), "given");
}

#[test]
fn godot_escaping_is_minimal_and_deterministic() {
    assert_eq!(escape_godot("plain"), "plain");
    assert_eq!(escape_godot("a\\b"), "a/b");
    assert_eq!(escape_godot("say \"hi\""), "say \\\"hi\\\"");
    assert_eq!(escape_godot("two\nlines"), "two lines");
}

#[test]
fn scene_text_has_exact_layout() {
    let e = LibraryEntry {
        id: "liber_777".to_string(),
        title: "Liber 777".to_string(),
        path: "data/liber_777".to_string(),
        metadata: meta("liber_777", "Liber 777"),
        chapel: ChapelProfile {
            domain: "kabbalah".to_string(),
            chapel_id: "stone_grimoire/kabbalah_chapel".to_string(),
            color_profile: None,
            sound_profile: None,
            icon: None,
        },
    };
    let text = chapel_scene_text(&e);
    let expect = "[gd_scene load_steps=2 format=3]\n\n[node name=\"Liber 777_Chapel\" type=\"Node3D\"]\nmetadata/id = \"liber_777\"\nmetadata/domain = \"kabbalah\"\nmetadata/chapel_id = \"stone_grimoire/kabbalah_chapel\"\nmetadata/source_path = \"data/liber_777\"\n\n[node name=\"Label3D\" type=\"Label3D\" parent=\".\"]\ntext = \"Liber 777\"\n";
    assert_eq!(text, expect);
}

#[test]
fn registry_record_is_versioned() {
    let r = build_registry("data".to_string(), Vec::new());
    assert_eq!(r.version, "1.0.0");
    assert_eq!(r.generated_by, "stone-grimoire-library-engine");
    assert_eq!(r.root, "data");
    assert!(r.libraries.is_empty());
}

#[test]
fn room_layout_partitions_entries() {
    let entries: Vec<EsotericEntry> =
        (0..25).map(|i| entry(&format!("e{i}"), Some("fire"), None)).collect();
    let dataset = LibraryDataset {
        metadata: rooms::LibraryMetadata {
            title: "Test Library".to_string(),
            author: "Test Author".to_string(),
            year: Some(2025),
            public_domain: true,
            structure: vec!["tables".to_string()],
            primary_theme: "test".to_string(),
            license_note: "Public domain".to_string(),
            provenance_url: None,
            access_date: None,
        },
        entries,
    };
    let room = create_room_layout("lib25", &dataset);
    assert_eq!(room.library_id, "lib25");
    assert_eq!(room.room_title, "Test Library");
    assert_eq!(room.theme, "test");
    assert_eq!(room.bookshelves.len(), 2);
    assert_eq!(room.bookshelves[0].entries.len(), 10);
    assert_eq!(room.bookshelves[0].entries[0], "e0");
    assert_eq!(room.bookshelves[1].entries[9], "e19");
    assert_eq!(room.bookshelves[1].position.x, 30);
    assert_eq!(room.sound_zones.len(), 25);
    assert_eq!(room.sound_zones[3].frequency_hz, 528);
    assert_eq!(room.sound_zones[3].associated_entries, vec!["e3".to_string()]);
    assert_eq!(room.art_displays.len(), 9);
    assert_eq!(room.art_displays[2].associated_entry, "e6");
    assert_eq!(room.navigation_nodes.len(), 1);
    assert_eq!(room.navigation_nodes[0].connected_room.as_deref(), Some("main_hall"));
    assert_eq!(room.navigation_nodes[0].portal_type, "door");
}

#[test]
fn art_types_follow_geometry() {
    assert_eq!(map_entry_to_art_type(&entry("a", None, Some("tetrahedron"))), "merkaba");
    assert_eq!(map_entry_to_art_type(&entry("b", None, Some("merkaba"))), "merkaba");
    assert_eq!(map_entry_to_art_type(&entry("c", None, Some("sphere"))), "sacred_geometry");
    assert_eq!(map_entry_to_art_type(&entry("d", None, Some("spiral"))), "sigil");
    assert_eq!(map_entry_to_art_type(&entry("e", None, None)), "sigil");
}

#[test]
fn entry_lookup_finds_first_match() {
    let entries = vec![entry("alpha", None, None), entry("beta", Some("fire"), None)];
    let hit = find_entry(&entries, &"beta".to_string()).unwrap();
    assert_eq!(hit.element.as_deref(), Some("fire"));
    assert!(find_entry(&entries, &"gamma".to_string()).is_none());
}

#[test]
fn entry_files_are_json_but_not_metadata() {
    assert!(is_entry_file("cards.json"));
    assert!(!is_entry_file("metadata.json"));
    assert!(!is_entry_file("cards.txt"));
    assert!(!is_entry_file("json"));
}

#[test]
fn fan_triangulation_wraps_around() {
    let idx = fan_triangulation(4);
    assert_eq!(idx, vec![0, 0, 1, 0, 1, 2, 0, 2, 3, 0, 3, 0]);
}

#[test]
fn gltf_children_are_offset_ranges() {
    assert_eq!(gltf_children(3, 4), vec![3, 4, 5, 6]);
    assert_eq!(gltf_children(0, 0), Vec::<usize>::new());
}

#[test]
fn geometry_transforms_follow_the_entry() {
    let t = geometry_transform(&entry("a", None, Some("tetrahedron")));
    assert_eq!(t, GeometryTransform::Tetrahedral);
    assert_eq!(transform_scale_milli(t), Some((1000, 1618, 1000)));
    assert_eq!(transform_spin_milliradians(t), 0);

    let c = geometry_transform(&entry("b", None, Some("cube")));
    assert_eq!(transform_scale_milli(c), Some((1000, 1000, 1000)));

    let m = geometry_transform(&entry("c", None, Some("merkaba")));
    assert_eq!(transform_scale_milli(m), None);
    assert_eq!(transform_spin_milliradians(m), 10);

    let n = geometry_transform(&entry("d", None, None));
    assert_eq!(n, GeometryTransform::NoChange);
}

#[test]
fn codex_tasks_map_to_nodes() {
    assert_eq!(codex_node_for_task("generate_3d_art"), (7, 7));
    assert_eq!(codex_node_for_task("compose_music"), (12, 12));
    assert_eq!(codex_node_for_task("build_temple"), (33, 33));
    assert_eq!(codex_node_for_task("unknown"), (1, 1));
}

fn card(number: u8, name: &str, hz: u32) -> TarotCard {
    TarotCard {
        number,
        name: name.to_string(),
        element: String::new(),
        planet: String::new(),
        hebrew_letter: String::new(),
        keywords: Vec::new(),
        powers: Vec::new(),
        merkaba_chariot: String::new(),
        faculty_role: String::new(),
        department: String::new(),
        specialties: Vec::new(),
        frequency_hz: hz,
        color: String::new(),
        archetype: String::new(),
    }
}

#[test]
fn codex_lookups_return_first_match() {
    let mut core = CathedralCore::new();
    core.load_tarot_data(vec![card(0, "Fool", 396), card(1, "Magician", 528), card(1, "Shadow", 1)]);
    assert_eq!(core.get_card_by_number(1).unwrap().name, "Magician");
    assert_eq!(core.get_card_by_name(&"Fool".to_string()).unwrap().frequency_hz, 396);
    assert!(core.get_card_by_number(9).is_none());
    assert_eq!(core.get_all_major_arcana().len(), 3);
}

#[test]
fn flags_take_the_following_argument() {
    let args: Vec<String> =
        ["--text", "hello", "--output", "f.png"].iter().map(|s| s.to_string()).collect();
    assert_eq!(get_flag(&args, "--text"), "hello");
    assert_eq!(get_flag(&args, "--output"), "f.png");
    assert_eq!(get_flag(&args, "--missing"), "");
    assert_eq!(get_flag_default(&args, "--missing", "sigil.png"), "sigil.png");
    assert_eq!(get_flag_default(&args, "--text", "x"), "hello");
}

#[test]
fn quotes_are_picked_from_annotated_lines() {
    let text = "intro\n>> The dragon dreams the egg  \nplain\n> second\n";
    assert_eq!(pick_quote(text).as_deref(), Some("The dragon dreams the egg"));
    assert_eq!(pick_quote("no quotes\nhere"), None);
    assert_eq!(pick_quote("> \t  "), Some("".to_string()));
    assert_eq!(pick_quote("a > b\n>real"), Some("real".to_string()));
}

#[test]
fn morph_transfers_scaled_experience() {
    let table: Vec<ArcanaEntry> = (0..21)
        .map(|i| ArcanaEntry {
            name: format!("name{i}"),
            card: format!("card{i}"),
            power: format!("power{i}"),
        })
        .collect();
    let m = morph_xp(&table, "name20", "name1");
    assert_eq!(m.from_id, 20);
    assert_eq!(m.to_id, 1);
    assert_eq!(m.xp, 20 * 1618 / 1000);
    // Unknown names fall back to positions 0 and 1.
    let m = morph_xp(&table, "nobody", "nothing");
    assert_eq!(m.from_id, 0);
    assert_eq!(m.to_id, 1);
    assert_eq!(m.xp, 0);
}
