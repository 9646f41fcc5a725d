//! The grimoire library registry: metadata records, chapel-profile
//! inference, and Godot scene-blueprint text.
//!
//! The registry engine scans dataset folders on disk (outside this
//! crate), but every decision it makes is here and verified: which chapel
//! a library belongs to (matched case-insensitively against its id and
//! title), how a library id falls back to the folder name, what the
//! unified registry record holds, and the exact text of the emitted
//! `.tscn` scene blueprints, including its escaping.

use vstd::prelude::*;
use vstd::string::StrSliceExecFns;
use vstd::string::StringExecFns;

verus! {

/// Where the registry engine reads and writes.  The paths are opaque to
/// the core: only the surrounding shell opens them.
pub struct EngineConfig {
    /// The root data-libraries directory.
    pub data_root: std::path::PathBuf,
    /// Output path of the unified registry JSON.
    pub registry_output: std::path::PathBuf,
    /// Optional output directory for Godot scene blueprints.
    pub godot_scenes_output: Option<std::path::PathBuf>,
}

/// Minimal metadata of a single library.
pub struct LibraryMetadata {
    pub id: String,
    pub title: String,
    pub author: Option<String>,
    pub year: Option<i32>,
    pub public_domain: Option<bool>,
    pub primary_theme: Option<String>,
    pub license_note: Option<String>,
    pub source_url: Option<String>,
    /// Structure hints such as tables, commentary or verses.
    pub structure: Vec<String>,
}

/// Chapel classification for spatial and audio integration.
pub struct ChapelProfile {
    pub domain: String,
    pub chapel_id: String,
    pub color_profile: Option<String>,
    pub sound_profile: Option<String>,
    pub icon: Option<String>,
}

/// One entry of the unified registry.
pub struct LibraryEntry {
    pub id: String,
    pub title: String,
    pub path: String,
    pub metadata: LibraryMetadata,
    pub chapel: ChapelProfile,
}

/// The top-level registry record written to JSON by the shell.
pub struct LibraryRegistry {
    pub version: String,
    pub generated_by: String,
    pub root: String,
    pub libraries: Vec<LibraryEntry>,
}

/// Relies on `std::path::PathBuf`, declared so that configuration values
/// can carry paths through the core untouched.
#[verifier::external_type_specification]
#[verifier::external_body]
pub struct ExPathBuf(std::path::PathBuf);

/// Relies on `Path::to_str` and `Path::display`: renders a path as text,
/// exactly as the platform encodes it.
#[verifier::external_body]
pub fn path_to_string(p: &std::path::PathBuf) -> String {
    p.to_str().map(|s| s.to_string()).unwrap_or_else(|| p.display().to_string())
}

/// Whether hay character `c` matches lowercase-ASCII needle character
/// `n`, ignoring ASCII case.
pub open spec fn matches_ci(c: char, n: char) -> bool {
    c == n || (97 <= n as u32 <= 122 && c as u32 + 32 == n as u32)
}

/// Whether the needle matches the hay at offset `i`.
pub open spec fn contains_ci_at(hay: Seq<char>, needle: Seq<char>, i: int) -> bool {
    &&& 0 <= i
    &&& i + needle.len() <= hay.len()
    &&& forall|j: int| 0 <= j < needle.len() ==> matches_ci(hay[i + j], #[trigger] needle[j])
}

/// Whether the hay contains the lowercase-ASCII needle, ignoring ASCII
/// case.
pub open spec fn contains_ci(hay: Seq<char>, needle: Seq<char>) -> bool {
    exists|i: int| contains_ci_at(hay, needle, i)
}

/// The characters of `s`, as a vector.
pub fn chars_of(s: &str) -> (v: Vec<char>)
    ensures
        v@ == s@,
{
    let n = s.unicode_len();
    let mut v: Vec<char> = Vec::new();
    let mut i: usize = 0;
    while i < n
        invariant
            i <= n,
            n == s@.len(),
            v@ == s@.take(i as int),
        decreases n - i,
    {
        v.push(s.get_char(i));
        proof {
            assert(v@ =~= s@.take(i + 1));
        }
        i = i + 1;
    }
    proof {
        assert(s@.take(n as int) =~= s@);
    }
    v
}

/// Whether `hay` contains `needle` up to ASCII case of the hay.
pub fn contains_ci_chars(hay: &Vec<char>, needle: &Vec<char>) -> (r: bool)
    ensures
        r == contains_ci(hay@, needle@),
{
    let hl = hay.len();
    let nl = needle.len();
    if nl > hl {
        proof {
            assert forall|i: int| !contains_ci_at(hay@, needle@, i) by {}
        }
        return false;
    }
    let mut i: usize = 0;
    while i <= hl - nl
        invariant
            nl <= hl,
            hl == hay@.len(),
            nl == needle@.len(),
            forall|k: int| 0 <= k < i ==> !contains_ci_at(hay@, needle@, k),
        decreases hl - i,
    {
        let mut j: usize = 0;
        let mut all = true;
        while j < nl
            invariant
                j <= nl,
                i + nl <= hl,
                hl == hay@.len(),
                nl == needle@.len(),
                all <==> forall|m: int|
                    0 <= m < j ==> matches_ci(hay@[i + m], #[trigger] needle@[m]),
            decreases nl - j,
        {
            let hc = hay[i + j];
            let nc = needle[j];
            let hit = hc == nc || ((nc as u32) >= 97 && (nc as u32) <= 122 && (hc as u32) == (
            nc as u32) - 32);
            if !hit {
                all = false;
            }
            proof {
                if all {
                    assert forall|m: int|
                        0 <= m < j + 1 implies matches_ci(hay@[i + m], #[trigger] needle@[m]) by {}
                }
            }
            j = j + 1;
        }
        if all {
            proof {
                assert(contains_ci_at(hay@, needle@, i as int));
            }
            return true;
        }
        i = i + 1;
    }
    proof {
        assert forall|k: int| !contains_ci_at(hay@, needle@, k) by {
            if contains_ci_at(hay@, needle@, k) {
                assert(0 <= k && k + nl <= hl);
                assert(k < i);
            }
        }
    }
    false
}

/// The kabbalah rule: "777" in id or title, or "kabbalah" in the id.
pub open spec fn rule_kabbalah(id: Seq<char>, title: Seq<char>) -> bool {
    contains_ci(id, "777"@) || contains_ci(title, "777"@) || contains_ci(id, "kabbalah"@)
}

/// The thelemic rule: "liber_al" in the id or "liber al" in the title.
pub open spec fn rule_thelemic(id: Seq<char>, title: Seq<char>) -> bool {
    contains_ci(id, "liber_al"@) || contains_ci(title, "liber al"@)
}

/// The hexagram rule: "iching" or "i_ching" in the id, or "i ching" in
/// the title.
pub open spec fn rule_iching(id: Seq<char>, title: Seq<char>) -> bool {
    contains_ci(id, "iching"@) || contains_ci(id, "i_ching"@) || contains_ci(title, "i ching"@)
}

/// The cipher rule: "soyga" or "enoch" in the id, or "enochian" in the
/// title.
pub open spec fn rule_cipher(id: Seq<char>, title: Seq<char>) -> bool {
    contains_ci(id, "soyga"@) || contains_ci(id, "enoch"@) || contains_ci(title, "enochian"@)
}

/// Which of the five chapel profiles the rules select: the first match
/// wins, the last profile is the default.
pub open spec fn chapel_rule(id: Seq<char>, title: Seq<char>) -> int {
    if rule_kabbalah(id, title) {
        0
    } else if rule_thelemic(id, title) {
        1
    } else if rule_iching(id, title) {
        2
    } else if rule_cipher(id, title) {
        3
    } else {
        4
    }
}

/// The domain name of each chapel rule.
pub open spec fn rule_domain(rule: int) -> Seq<char> {
    if rule == 0 {
        "kabbalah"@
    } else if rule == 1 {
        "thelemic"@
    } else if rule == 2 {
        "iching"@
    } else if rule == 3 {
        "cipher"@
    } else {
        "general_esoteric"@
    }
}

/// The chapel id of each chapel rule.
pub open spec fn rule_chapel_id(rule: int) -> Seq<char> {
    if rule == 0 {
        "stone_grimoire/kabbalah_chapel"@
    } else if rule == 1 {
        "stone_grimoire/thelemic_oracle_chapel"@
    } else if rule == 2 {
        "stone_grimoire/hexagram_chamber"@
    } else if rule == 3 {
        "stone_grimoire/cipher_lab"@
    } else {
        "stone_grimoire/unified_library"@
    }
}

/// The colour profile of each chapel rule.
pub open spec fn rule_color(rule: int) -> Seq<char> {
    if rule == 0 {
        "#ffffff"@
    } else if rule == 1 {
        "#ffcc00"@
    } else if rule == 2 {
        "#222222"@
    } else if rule == 3 {
        "#330066"@
    } else {
        "#999999"@
    }
}

/// The soundscape key of each chapel rule.
pub open spec fn rule_sound(rule: int) -> Seq<char> {
    if rule == 0 {
        "choir_celestial"@
    } else if rule == 1 {
        "solar_fanfare"@
    } else if rule == 2 {
        "water_metal_resonance"@
    } else if rule == 3 {
        "number_station_choir"@
    } else {
        "ambient_library"@
    }
}

/// The icon resource of each chapel rule.
pub open spec fn rule_icon(rule: int) -> Seq<char> {
    if rule == 0 {
        "res://icons/kabbalah_sigil.png"@
    } else if rule == 1 {
        "res://icons/liber_al_sigil.png"@
    } else if rule == 2 {
        "res://icons/iching_trigram.png"@
    } else if rule == 3 {
        "res://icons/soyga_square.png"@
    } else {
        "res://icons/library_default.png"@
    }
}

/// Whether a returned chapel profile carries exactly the five fields of
/// the selected rule.
pub open spec fn profile_matches_rule(p: ChapelProfile, rule: int) -> bool {
    &&& p.domain@ == rule_domain(rule)
    &&& p.chapel_id@ == rule_chapel_id(rule)
    &&& p.color_profile matches Some(s) && s@ == rule_color(rule)
    &&& p.sound_profile matches Some(s) && s@ == rule_sound(rule)
    &&& p.icon matches Some(s) && s@ == rule_icon(rule)
}

/// Builds one chapel profile from its rule parts.
fn profile_of(domain: &str, chapel_id: &str, color: &str, sound: &str, icon: &str) -> (p:
    ChapelProfile)
    ensures
        p.domain@ == domain@,
        p.chapel_id@ == chapel_id@,
        p.color_profile matches Some(s) && s@ == color@,
        p.sound_profile matches Some(s) && s@ == sound@,
        p.icon matches Some(s) && s@ == icon@,
{
    ChapelProfile {
        domain: domain.to_owned(),
        chapel_id: chapel_id.to_owned(),
        color_profile: Some(color.to_owned()),
        sound_profile: Some(sound.to_owned()),
        icon: Some(icon.to_owned()),
    }
}

/// Infers which chapel a library belongs to from its id and title,
/// deterministically: the first matching rule decides every field of the
/// profile.
pub fn infer_chapel_profile(meta: &LibraryMetadata) -> (p: ChapelProfile)
    ensures
        profile_matches_rule(p, chapel_rule(meta.id@, meta.title@)),
{
    let id = chars_of(meta.id.as_str());
    let title = chars_of(meta.title.as_str());
    let n777 = chars_of("777");
    let nkab = chars_of("kabbalah");
    if contains_ci_chars(&id, &n777) || contains_ci_chars(&title, &n777) || contains_ci_chars(
        &id,
        &nkab,
    ) {
        return profile_of(
            "kabbalah",
            "stone_grimoire/kabbalah_chapel",
            "#ffffff",
            "choir_celestial",
            "res://icons/kabbalah_sigil.png",
        );
    }
    let nla = chars_of("liber_al");
    let nlas = chars_of("liber al");
    if contains_ci_chars(&id, &nla) || contains_ci_chars(&title, &nlas) {
        return profile_of(
            "thelemic",
            "stone_grimoire/thelemic_oracle_chapel",
            "#ffcc00",
            "solar_fanfare",
            "res://icons/liber_al_sigil.png",
        );
    }
    let nic = chars_of("iching");
    let nic2 = chars_of("i_ching");
    let nic3 = chars_of("i ching");
    if contains_ci_chars(&id, &nic) || contains_ci_chars(&id, &nic2) || contains_ci_chars(
        &title,
        &nic3,
    ) {
        return profile_of(
            "iching",
            "stone_grimoire/hexagram_chamber",
            "#222222",
            "water_metal_resonance",
            "res://icons/iching_trigram.png",
        );
    }
    let nso = chars_of("soyga");
    let nen = chars_of("enoch");
    let nen2 = chars_of("enochian");
    if contains_ci_chars(&id, &nso) || contains_ci_chars(&id, &nen) || contains_ci_chars(
        &title,
        &nen2,
    ) {
        return profile_of(
            "cipher",
            "stone_grimoire/cipher_lab",
            "#330066",
            "number_station_choir",
            "res://icons/soyga_square.png",
        );
    }
    profile_of(
        "general_esoteric",
        "stone_grimoire/unified_library",
        "#999999",
        "ambient_library",
        "res://icons/library_default.png",
    )
}

/// Whether a character is ASCII whitespace.
pub open spec fn is_space(c: char) -> bool {
    c == ' ' || c == '\t' || c == '\n' || c == '\r'
}

/// Whether a string holds nothing but ASCII whitespace.
pub open spec fn is_blank(s: Seq<char>) -> bool {
    forall|i: int| 0 <= i < s.len() ==> is_space(#[trigger] s[i])
}

/// Whether `s` is blank: empty or ASCII whitespace only.
pub fn str_is_blank(s: &str) -> (r: bool)
    ensures
        r == is_blank(s@),
{
    let n = s.unicode_len();
    let mut i: usize = 0;
    while i < n
        invariant
            i <= n,
            n == s@.len(),
            forall|k: int| 0 <= k < i ==> is_space(#[trigger] s@[k]),
        decreases n - i,
    {
        let c = s.get_char(i);
        if !(c == ' ' || c == '\t' || c == '\n' || c == '\r') {
            return false;
        }
        i = i + 1;
    }
    true
}

/// The id a library ends up with: its declared id, or the folder name
/// when the declared id is blank.
pub open spec fn resolved_id(meta_id: Seq<char>, folder: Seq<char>) -> Seq<char> {
    if is_blank(meta_id) {
        folder
    } else {
        meta_id
    }
}

/// Resolves a library id against its folder name.
pub fn resolve_library_id(meta_id: &String, folder: &str) -> (r: String)
    ensures
        r@ == resolved_id(meta_id@, folder@),
{
    if str_is_blank(meta_id.as_str()) {
        folder.to_owned()
    } else {
        meta_id.clone()
    }
}

/// One replaced character of the scene-text escaping: a backslash turns
/// into a slash, a quote grows a backslash, a newline becomes a space.
pub open spec fn escape_char(c: char) -> Seq<char> {
    if c == '\\' {
        seq!['/']
    } else if c == '"' {
        seq!['\\', '"']
    } else if c == '\n' {
        seq![' ']
    } else {
        seq![c]
    }
}

/// The escaped form of a whole string.
pub open spec fn escaped(s: Seq<char>) -> Seq<char>
    decreases s.len(),
{
    if s.len() == 0 {
        Seq::empty()
    } else {
        escaped(s.drop_last()) + escape_char(s.last())
    }
}

/// Escapes a string for embedding in `.tscn` scene text: deterministic
/// and minimal.
pub fn escape_godot(input: &str) -> (r: String)
    ensures
        r@ == escaped(input@),
{
    let n = input.unicode_len();
    let mut out = String::new();
    let mut i: usize = 0;
    while i < n
        invariant
            i <= n,
            n == input@.len(),
            out@ == escaped(input@.take(i as int)),
        decreases n - i,
    {
        let c = input.get_char(i);
        if c == '\\' {
            out.append("/");
            proof {
                reveal_strlit("/");
            }
        } else if c == '"' {
            out.append("\\\"");
            proof {
                reveal_strlit("\\\"");
            }
        } else if c == '\n' {
            out.append(" ");
            proof {
                reveal_strlit(" ");
            }
        } else {
            let piece = input.substring_char(i, i + 1);
            out.append(piece);
            proof {
                assert(piece@ =~= seq![input@[i as int]]);
            }
        }
        proof {
            assert(input@.take(i + 1).drop_last() =~= input@.take(i as int));
            assert(input@.take(i + 1).last() == input@[i as int]);
            assert(out@ =~= escaped(input@.take(i + 1)));
        }
        i = i + 1;
    }
    proof {
        assert(input@.take(n as int) =~= input@);
    }
    out
}

/// Joins a loaded metadata record, its folder path and its inferred
/// chapel into one registry entry.
pub fn make_library_entry(meta: LibraryMetadata, path: String, folder: &str) -> (e: LibraryEntry)
    ensures
        e.id@ == resolved_id(meta.id@, folder@),
        e.title@ == meta.title@,
        e.path@ == path@,
        e.metadata.id@ == resolved_id(meta.id@, folder@),
        e.metadata.title@ == meta.title@,
        e.metadata.author == meta.author,
        e.metadata.year == meta.year,
        e.metadata.public_domain == meta.public_domain,
        e.metadata.primary_theme == meta.primary_theme,
        e.metadata.license_note == meta.license_note,
        e.metadata.source_url == meta.source_url,
        e.metadata.structure == meta.structure,
        profile_matches_rule(e.chapel, chapel_rule(resolved_id(meta.id@, folder@), meta.title@)),
{
    let id = resolve_library_id(&meta.id, folder);
    let meta2 = LibraryMetadata { id: id.clone(), ..meta };
    let chapel = infer_chapel_profile(&meta2);
    LibraryEntry {
        id,
        title: meta2.title.clone(),
        path: path.clone(),
        metadata: meta2,
        chapel,
    }
}

/// Assembles the top-level registry record from the scanned entries.
pub fn build_registry(root: String, libraries: Vec<LibraryEntry>) -> (r: LibraryRegistry)
    ensures
        r.version@ == "1.0.0"@,
        r.generated_by@ == "stone-grimoire-library-engine"@,
        r.root@ == root@,
        r.libraries == libraries,
{
    LibraryRegistry {
        version: "1.0.0".to_owned(),
        generated_by: "stone-grimoire-library-engine".to_owned(),
        root: root,
        libraries,
    }
}

/// The exact scene-blueprint text of one library entry: a Node3D with
/// the entry's metadata and a Label3D carrying its title, every field
/// escaped.
pub open spec fn scene_text_spec(e: LibraryEntry) -> Seq<char> {
    "[gd_scene load_steps=2 format=3]\n\n[node name=\""@ + escaped(e.title@)
        + "_Chapel\" type=\"Node3D\"]\nmetadata/id = \""@ + escaped(e.id@)
        + "\"\nmetadata/domain = \""@ + escaped(e.chapel.domain@)
        + "\"\nmetadata/chapel_id = \""@ + escaped(e.chapel.chapel_id@)
        + "\"\nmetadata/source_path = \""@ + escaped(e.path@)
        + "\"\n\n[node name=\"Label3D\" type=\"Label3D\" parent=\".\"]\ntext = \""@ + escaped(
        e.title@,
    ) + "\"\n"@
}

/// Renders the scene blueprint of one registry entry.
pub fn chapel_scene_text(e: &LibraryEntry) -> (r: String)
    ensures
        r@ == scene_text_spec(*e),
{
    let mut out = String::new();
    out.append("[gd_scene load_steps=2 format=3]\n\n[node name=\"");
    out.append(escape_godot(e.title.as_str()).as_str());
    out.append("_Chapel\" type=\"Node3D\"]\nmetadata/id = \"");
    out.append(escape_godot(e.id.as_str()).as_str());
    out.append("\"\nmetadata/domain = \"");
    out.append(escape_godot(e.chapel.domain.as_str()).as_str());
    out.append("\"\nmetadata/chapel_id = \"");
    out.append(escape_godot(e.chapel.chapel_id.as_str()).as_str());
    out.append("\"\nmetadata/source_path = \"");
    out.append(escape_godot(e.path.as_str()).as_str());
    out.append("\"\n\n[node name=\"Label3D\" type=\"Label3D\" parent=\".\"]\ntext = \"");
    out.append(escape_godot(e.title.as_str()).as_str());
    out.append("\"\n");
    out
}

} // verus!
