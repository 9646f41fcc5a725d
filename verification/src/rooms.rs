//! Library room planning: turning a dataset of esoteric entries into a
//! walkable room layout.
//!
//! The plan is pure data: bookshelves of ten entries each, a sound zone
//! per entry tuned to its element's solfeggio frequency, an art display
//! for every third entry, and one navigation door.  Positions are held in
//! tenths of a scene unit so the plan is exact integer data; the engine
//! shell converts to its own vector type when it builds nodes or exports
//! a scene.

use vstd::prelude::*;
use vstd::string::StrSliceExecFns;
use vstd::string::StringExecFns;

verus! {

/// A point or scale in tenths of a scene unit.
#[derive(Clone, Copy, Debug, PartialEq, Eq, Structural)]
pub struct Coord3 {
    pub x: i32,
    pub y: i32,
    pub z: i32,
}

/// One esoteric dataset entry.
pub struct EsotericEntry {
    pub name: String,
    pub element: Option<String>,
    pub geometry: Option<String>,
    pub music_profile: Option<String>,
    pub color: Option<String>,
    pub angel: Option<String>,
    pub demon: Option<String>,
    pub deity: Option<String>,
    pub healing_profile: Option<String>,
    pub art_style: Option<String>,
}

/// Metadata of one library dataset.
pub struct LibraryMetadata {
    pub title: String,
    pub author: String,
    pub year: Option<i32>,
    pub public_domain: bool,
    pub structure: Vec<String>,
    pub primary_theme: String,
    pub license_note: String,
    pub provenance_url: Option<String>,
    pub access_date: Option<String>,
}

/// A complete library dataset: metadata and entries.
pub struct LibraryDataset {
    pub metadata: LibraryMetadata,
    pub entries: Vec<EsotericEntry>,
}

/// A bookshelf holding up to ten entry names.
pub struct Bookshelf {
    pub position: Coord3,
    pub rotation: Coord3,
    pub scale: Coord3,
    pub entries: Vec<String>,
    pub material: String,
}

/// A spherical sound trigger zone tuned to one entry.
pub struct SoundZone {
    pub position: Coord3,
    pub radius_tenths: i32,
    pub frequency_hz: u32,
    pub waveform: String,
    pub associated_entries: Vec<String>,
}

/// An art display for one entry.
pub struct ArtDisplay {
    pub position: Coord3,
    pub art_type: String,
    pub color_scheme: String,
    pub associated_entry: String,
}

/// A connection point to another room.
pub struct NavigationNode {
    pub position: Coord3,
    pub connected_room: Option<String>,
    pub portal_type: String,
}

/// A generated room: shelves, sound zones, art and navigation.
pub struct LibraryRoom {
    pub library_id: String,
    pub room_title: String,
    pub theme: String,
    pub bookshelves: Vec<Bookshelf>,
    pub sound_zones: Vec<SoundZone>,
    pub art_displays: Vec<ArtDisplay>,
    pub navigation_nodes: Vec<NavigationNode>,
}

/// The solfeggio frequency an entry's element maps to, in Hz; 440 for an
/// unknown or missing element.
pub open spec fn entry_frequency(element: Option<String>) -> u32 {
    match element {
        Some(s) => {
            if s@ == "fire"@ {
                528
            } else if s@ == "water"@ {
                639
            } else if s@ == "air"@ {
                741
            } else if s@ == "earth"@ {
                396
            } else if s@ == "spirit"@ {
                963
            } else {
                440
            }
        },
        None => 440,
    }
}

/// Maps an entry's element to its solfeggio frequency.
pub fn map_entry_to_frequency(entry: &EsotericEntry) -> (f: u32)
    ensures
        f == entry_frequency(entry.element),
{
    match &entry.element {
        Some(s) => {
            if s.eq(&"fire".to_owned()) {
                528
            } else if s.eq(&"water".to_owned()) {
                639
            } else if s.eq(&"air".to_owned()) {
                741
            } else if s.eq(&"earth".to_owned()) {
                396
            } else if s.eq(&"spirit".to_owned()) {
                963
            } else {
                440
            }
        },
        None => 440,
    }
}

/// The art type an entry's geometry maps to.
pub open spec fn entry_art_type(geometry: Option<String>) -> Seq<char> {
    match geometry {
        Some(s) => {
            if s@ == "tetrahedron"@ || s@ == "merkaba"@ {
                "merkaba"@
            } else if s@ == "circle"@ || s@ == "sphere"@ {
                "sacred_geometry"@
            } else {
                "sigil"@
            }
        },
        None => "sigil"@,
    }
}

/// Maps an entry's geometry to the kind of art displayed beside it.
pub fn map_entry_to_art_type(entry: &EsotericEntry) -> (r: String)
    ensures
        r@ == entry_art_type(entry.geometry),
{
    match &entry.geometry {
        Some(s) => {
            if s.eq(&"tetrahedron".to_owned()) || s.eq(&"merkaba".to_owned()) {
                "merkaba".to_owned()
            } else if s.eq(&"circle".to_owned()) || s.eq(&"sphere".to_owned()) {
                "sacred_geometry".to_owned()
            } else {
                "sigil".to_owned()
            }
        },
        None => "sigil".to_owned(),
    }
}

/// Finds the first entry with the given name.
pub fn find_entry<'a>(entries: &'a Vec<EsotericEntry>, name: &String) -> (r: Option<
    &'a EsotericEntry,
>)
    ensures
        r is Some <==> exists|i: int|
            0 <= i < entries@.len() && (#[trigger] entries@[i]).name@ == name@,
        r matches Some(e) ==> exists|i: int|
            {
                &&& 0 <= i < entries@.len()
                &&& (#[trigger] entries@[i]).name@ == name@
                &&& *e == entries@[i]
                &&& forall|j: int| 0 <= j < i ==> (#[trigger] entries@[j]).name@ != name@
            },
{
    let n = entries.len();
    let mut i: usize = 0;
    while i < n
        invariant
            i <= n,
            n == entries@.len(),
            forall|j: int| 0 <= j < i ==> (#[trigger] entries@[j]).name@ != name@,
        decreases n - i,
    {
        if entries[i].name.eq(name) {
            return Some(&entries[i]);
        }
        i = i + 1;
    }
    None
}

/// How many bookshelves a dataset of `n` entries needs: one per ten
/// entries, at least one.
pub open spec fn shelf_count(n: int) -> int {
    if n / 10 >= 1 {
        n / 10
    } else {
        1
    }
}

/// The smaller of two integers.
pub open spec fn min_int(a: int, b: int) -> int {
    if a < b {
        a
    } else {
        b
    }
}

/// Whether a room plan lays out `dataset` for `library_id` exactly as the
/// layout rules say: shelves of ten along the x axis, one tuned sound
/// zone per entry, an art display for every third entry, and one door.
pub open spec fn room_plan_matches(room: LibraryRoom, library_id: Seq<char>, dataset: LibraryDataset) -> bool {
    let n = dataset.entries@.len() as int;
    &&& room.library_id@ == library_id
    &&& room.room_title@ == dataset.metadata.title@
    &&& room.theme@ == dataset.metadata.primary_theme@
    &&& room.bookshelves@.len() == shelf_count(n)
    &&& forall|i: int|
        0 <= i < room.bookshelves@.len() ==> {
            let shelf = #[trigger] room.bookshelves@[i];
            &&& shelf.position == (Coord3 { x: (30 * i) as i32, y: 0, z: 0 })
            &&& shelf.rotation == (Coord3 { x: 0, y: 0, z: 0 })
            &&& shelf.scale == (Coord3 { x: 20, y: 15, z: 5 })
            &&& shelf.material@ == "wood_dark"@
            &&& shelf.entries@.len() == min_int(10 * i + 10, n) - 10 * i
            &&& forall|j: int|
                0 <= j < shelf.entries@.len() ==> (#[trigger] shelf.entries@[j])@
                    == dataset.entries@[10 * i + j].name@
        }
    &&& room.sound_zones@.len() == n
    &&& forall|i: int|
        0 <= i < n ==> {
            let zone = #[trigger] room.sound_zones@[i];
            &&& zone.position == (Coord3 { x: (20 * i) as i32, y: 10, z: 50 })
            &&& zone.radius_tenths == 30
            &&& zone.frequency_hz == entry_frequency(dataset.entries@[i].element)
            &&& zone.waveform@ == "sine"@
            &&& zone.associated_entries@.len() == 1
            &&& zone.associated_entries@[0]@ == dataset.entries@[i].name@
        }
    &&& room.art_displays@.len() == (n + 2) / 3
    &&& forall|i: int|
        0 <= i < room.art_displays@.len() ==> {
            let art = #[trigger] room.art_displays@[i];
            &&& art.position == (Coord3 { x: -50i32, y: 20, z: (30 * i) as i32 })
            &&& art.art_type@ == entry_art_type(dataset.entries@[3 * i].geometry)
            &&& art.color_scheme@ == (match dataset.entries@[3 * i].color {
                Some(c) => c@,
                None => "gold"@,
            })
            &&& art.associated_entry@ == dataset.entries@[3 * i].name@
        }
    &&& room.navigation_nodes@.len() == 1
    &&& room.navigation_nodes@[0].position == (Coord3 { x: 0, y: 0, z: -100i32 })
    &&& room.navigation_nodes@[0].connected_room matches Some(s) && s@ == "main_hall"@
    &&& room.navigation_nodes@[0].portal_type@ == "door"@
}

/// Plans the room of one dataset: deterministic layout from the entries
/// alone.
pub fn create_room_layout(library_id: &str, dataset: &LibraryDataset) -> (room: LibraryRoom)
    requires
        dataset.entries@.len() <= 100000,
    ensures
        room_plan_matches(room, library_id@, *dataset),
{
    let n = dataset.entries.len();
    let shelf_total: usize = if n / 10 >= 1 {
        n / 10
    } else {
        1
    };
    let mut bookshelves: Vec<Bookshelf> = Vec::new();
    let mut i: usize = 0;
    while i < shelf_total
        invariant
            i <= shelf_total,
            n == dataset.entries@.len(),
            n <= 100000,
            shelf_total == shelf_count(n as int),
            shelf_total <= 10001,
            bookshelves@.len() == i,
            forall|k: int|
                0 <= k < i ==> {
                    let shelf = #[trigger] bookshelves@[k];
                    &&& shelf.position == (Coord3 { x: (30 * k) as i32, y: 0, z: 0 })
                    &&& shelf.rotation == (Coord3 { x: 0, y: 0, z: 0 })
                    &&& shelf.scale == (Coord3 { x: 20, y: 15, z: 5 })
                    &&& shelf.material@ == "wood_dark"@
                    &&& shelf.entries@.len() == min_int(10 * k + 10, n as int) - 10 * k
                    &&& forall|j: int|
                        0 <= j < shelf.entries@.len() ==> (#[trigger] shelf.entries@[j])@
                            == dataset.entries@[10 * k + j].name@
                },
        decreases shelf_total - i,
    {
        let start: usize = 10 * i;
        let end: usize = if start + 10 < n {
            start + 10
        } else {
            n
        };
        proof {
            if n / 10 >= 1 {
                assert(10 * (i as int) + 10 <= n as int) by (nonlinear_arith)
                    requires
                        0 <= (i as int),
                        (i as int) < (n as int) / 10,
                        0 <= (n as int),
                ;
            }
        }
        let mut names: Vec<String> = Vec::new();
        let mut j: usize = start;
        while j < end
            invariant
                start <= j <= end,
                end <= n,
                start == 10 * i,
                n == dataset.entries@.len(),
                names@.len() == j - start,
                forall|m: int|
                    0 <= m < names@.len() ==> (#[trigger] names@[m])@ == dataset.entries@[
                        start as int + m].name@,
            decreases end - j,
        {
            names.push(dataset.entries[j].name.clone());
            j = j + 1;
        }
        bookshelves.push(
            Bookshelf {
                position: Coord3 { x: 30 * (i as i32), y: 0, z: 0 },
                rotation: Coord3 { x: 0, y: 0, z: 0 },
                scale: Coord3 { x: 20, y: 15, z: 5 },
                entries: names,
                material: "wood_dark".to_owned(),
            },
        );
        i = i + 1;
    }
    let mut sound_zones: Vec<SoundZone> = Vec::new();
    let mut i2: usize = 0;
    while i2 < n
        invariant
            i2 <= n,
            n == dataset.entries@.len(),
            n <= 100000,
            sound_zones@.len() == i2,
            forall|k: int|
                0 <= k < i2 ==> {
                    let zone = #[trigger] sound_zones@[k];
                    &&& zone.position == (Coord3 { x: (20 * k) as i32, y: 10, z: 50 })
                    &&& zone.radius_tenths == 30
                    &&& zone.frequency_hz == entry_frequency(dataset.entries@[k].element)
                    &&& zone.waveform@ == "sine"@
                    &&& zone.associated_entries@.len() == 1
                    &&& zone.associated_entries@[0]@ == dataset.entries@[k].name@
                },
        decreases n - i2,
    {
        let mut assoc: Vec<String> = Vec::new();
        assoc.push(dataset.entries[i2].name.clone());
        let freq = map_entry_to_frequency(&dataset.entries[i2]);
        sound_zones.push(
            SoundZone {
                position: Coord3 { x: 20 * (i2 as i32), y: 10, z: 50 },
                radius_tenths: 30,
                frequency_hz: freq,
                waveform: "sine".to_owned(),
                associated_entries: assoc,
            },
        );
        i2 = i2 + 1;
    }
    let art_total: usize = (n + 2) / 3;
    let mut art_displays: Vec<ArtDisplay> = Vec::new();
    let mut i3: usize = 0;
    while i3 < art_total
        invariant
            i3 <= art_total,
            n == dataset.entries@.len(),
            n <= 100000,
            art_total == (n + 2) / 3,
            art_displays@.len() == i3,
            forall|k: int|
                0 <= k < i3 ==> {
                    let art = #[trigger] art_displays@[k];
                    &&& art.position == (Coord3 { x: -50i32, y: 20, z: (30 * k) as i32 })
                    &&& art.art_type@ == entry_art_type(dataset.entries@[3 * k].geometry)
                    &&& art.color_scheme@ == (match dataset.entries@[3 * k].color {
                        Some(c) => c@,
                        None => "gold"@,
                    })
                    &&& art.associated_entry@ == dataset.entries@[3 * k].name@
                },
        decreases art_total - i3,
    {
        proof {
            assert(3 * (i3 as int) < n as int) by (nonlinear_arith)
                requires
                    0 <= (i3 as int),
                    (i3 as int) < ((n as int) + 2) / 3,
                    0 <= (n as int),
            ;
        }
        let idx: usize = 3 * i3;
        let entry = &dataset.entries[idx];
        let art_type = map_entry_to_art_type(entry);
        let scheme: String = match &entry.color {
            Some(c) => c.clone(),
            None => "gold".to_owned(),
        };
        art_displays.push(
            ArtDisplay {
                position: Coord3 { x: -50, y: 20, z: 30 * (i3 as i32) },
                art_type,
                color_scheme: scheme,
                associated_entry: entry.name.clone(),
            },
        );
        i3 = i3 + 1;
    }
    let mut navigation_nodes: Vec<NavigationNode> = Vec::new();
    navigation_nodes.push(
        NavigationNode {
            position: Coord3 { x: 0, y: 0, z: -100 },
            connected_room: Some("main_hall".to_owned()),
            portal_type: "door".to_owned(),
        },
    );
    LibraryRoom {
        library_id: library_id.to_owned(),
        room_title: dataset.metadata.title.clone(),
        theme: dataset.metadata.primary_theme.clone(),
        bookshelves,
        sound_zones,
        art_displays,
        navigation_nodes,
    }
}

/// The transform an entry's geometry asks for on its display node.
#[derive(Clone, Copy, Debug, PartialEq, Eq, Structural)]
pub enum GeometryTransform {
    /// Stretch to golden-ratio height.
    Tetrahedral,
    /// Reset to a perfect cube.
    Cubic,
    /// Spin continuously about the vertical axis.
    MerkabaSpin,
    /// Leave the node untouched.
    NoChange,
}

/// Which transform a geometry name selects.
pub open spec fn transform_for(geometry: Option<String>) -> GeometryTransform {
    match geometry {
        Some(s) => {
            if s@ == "tetrahedron"@ {
                GeometryTransform::Tetrahedral
            } else if s@ == "cube"@ {
                GeometryTransform::Cubic
            } else if s@ == "merkaba"@ {
                GeometryTransform::MerkabaSpin
            } else {
                GeometryTransform::NoChange
            }
        },
        None => GeometryTransform::NoChange,
    }
}

/// Decides which transform to apply for an entry's geometry.
pub fn geometry_transform(entry: &EsotericEntry) -> (t: GeometryTransform)
    ensures
        t == transform_for(entry.geometry),
{
    match &entry.geometry {
        Some(s) => {
            if s.eq(&"tetrahedron".to_owned()) {
                GeometryTransform::Tetrahedral
            } else if s.eq(&"cube".to_owned()) {
                GeometryTransform::Cubic
            } else if s.eq(&"merkaba".to_owned()) {
                GeometryTransform::MerkabaSpin
            } else {
                GeometryTransform::NoChange
            }
        },
        None => GeometryTransform::NoChange,
    }
}

/// The scale a transform sets, in thousandths of a unit: the golden
/// stretch for a tetrahedron, the unit cube for a cube, nothing for the
/// others.
pub fn transform_scale_milli(t: GeometryTransform) -> (r: Option<(i32, i32, i32)>)
    ensures
        t == GeometryTransform::Tetrahedral ==> r == Some((1000i32, 1618i32, 1000i32)),
        t == GeometryTransform::Cubic ==> r == Some((1000i32, 1000i32, 1000i32)),
        t == GeometryTransform::MerkabaSpin || t == GeometryTransform::NoChange ==> r is None,
{
    match t {
        GeometryTransform::Tetrahedral => Some((1000, 1618, 1000)),
        GeometryTransform::Cubic => Some((1000, 1000, 1000)),
        GeometryTransform::MerkabaSpin => None,
        GeometryTransform::NoChange => None,
    }
}

/// The per-tick spin a transform adds about the vertical axis, in
/// milliradians: only the merkaba spins.
pub fn transform_spin_milliradians(t: GeometryTransform) -> (r: i32)
    ensures
        t == GeometryTransform::MerkabaSpin ==> r == 10,
        t != GeometryTransform::MerkabaSpin ==> r == 0,
{
    match t {
        GeometryTransform::MerkabaSpin => 10,
        _ => 0,
    }
}

/// Whether a file name is a dataset entry file: a `.json` file other
/// than the metadata file itself.
pub open spec fn is_entry_file_spec(name: Seq<char>) -> bool {
    &&& name.len() >= 5
    &&& name.subrange(name.len() - 5, name.len() as int) == ".json"@
    &&& name != "metadata.json"@
}

/// Decides whether a directory entry name is a dataset entry file.
pub fn is_entry_file(name: &str) -> (r: bool)
    ensures
        r == is_entry_file_spec(name@),
{
    proof {
        reveal_strlit(".json");
    }
    let n = name.unicode_len();
    if n < 5 {
        return false;
    }
    let tail = name.substring_char(n - 5, n);
    let suffix_ok = tail.get_char(0) == '.' && tail.get_char(1) == 'j' && tail.get_char(2) == 's'
        && tail.get_char(3) == 'o' && tail.get_char(4) == 'n';
    proof {
        assert(suffix_ok ==> name@.subrange(n - 5, n as int) =~= ".json"@);
        assert(name@.subrange(n - 5, n as int) == ".json"@ ==> suffix_ok);
    }
    if !suffix_ok {
        return false;
    }
    let whole = name.to_owned();
    let meta = "metadata.json".to_owned();
    !whole.eq(&meta)
}

/// A triangle-fan index buffer over `segments` rim vertices: triangle
/// `i` is `(0, i, i + 1 mod segments)`.
pub fn fan_triangulation(segments: usize) -> (v: Vec<u32>)
    requires
        segments <= 1000000,
    ensures
        v@.len() == 3 * segments,
        forall|i: int|
            0 <= i < segments ==> #[trigger] v@[3 * i] == 0 && v@[3 * i + 1] == i && v@[3 * i + 2]
                == ((i + 1) % (segments as int)) as u32,
{
    let mut v: Vec<u32> = Vec::new();
    let mut i: usize = 0;
    while i < segments
        invariant
            i <= segments,
            segments <= 1000000,
            v@.len() == 3 * i,
            forall|k: int|
                0 <= k < i ==> #[trigger] v@[3 * k] == 0 && v@[3 * k + 1] == k && v@[3 * k + 2]
                    == ((k + 1) % (segments as int)) as u32,
        decreases segments - i,
    {
        let next: usize = (i + 1) % segments;
        let ghost pre_v = v@;
        v.push(0);
        v.push(i as u32);
        v.push(next as u32);
        proof {
            assert(v@ =~= pre_v.push(0u32).push(i as u32).push(next as u32));
            assert forall|k: int|
                0 <= k < i + 1 implies #[trigger] v@[3 * k] == 0 && v@[3 * k + 1] == k && v@[3 * k
                + 2] == ((k + 1) % (segments as int)) as u32 by {
                if k < i {
                    assert(v@[3 * k] == pre_v[3 * k]);
                    assert(v@[3 * k + 1] == pre_v[3 * k + 1]);
                    assert(v@[3 * k + 2] == pre_v[3 * k + 2]);
                    assert(pre_v[3 * k] == 0 && pre_v[3 * k + 1] == k && pre_v[3 * k + 2] == ((k
                        + 1) % (segments as int)) as u32);
                } else {
                    assert(3 * k == pre_v.len());
                    assert(v@[3 * k] == 0);
                    assert(v@[3 * k + 1] == i as u32);
                    assert(v@[3 * k + 2] == next as u32);
                }
            }
        }
        i = i + 1;
    }
    v
}

/// The child-node index range `[start, start + count)` of one group in a
/// scene export.
pub fn gltf_children(start: usize, count: usize) -> (v: Vec<usize>)
    requires
        start + count <= 1000000,
    ensures
        v@.len() == count,
        forall|i: int| 0 <= i < count ==> v@[i] == start + i,
{
    let mut v: Vec<usize> = Vec::new();
    let mut i: usize = 0;
    while i < count
        invariant
            i <= count,
            start + count <= 1000000,
            v@.len() == i,
            forall|k: int| 0 <= k < i ==> v@[k] == start + k,
        decreases count - i,
    {
        v.push(start + i);
        i = i + 1;
    }
    v
}

/// The codex node a tool task maps to, and its gate (the node modulo
/// 99).
pub open spec fn task_node(task_type: Seq<char>) -> u32 {
    if task_type == "generate_3d_art"@ {
        7
    } else if task_type == "compose_music"@ {
        12
    } else if task_type == "build_temple"@ {
        33
    } else {
        1
    }
}

/// Maps a tool task type to its codex node and gate.
pub fn codex_node_for_task(task_type: &str) -> (r: (u32, u32))
    ensures
        r.0 == task_node(task_type@),
        r.1 == task_node(task_type@) as int % 99,
{
    let t = task_type.to_owned();
    let node: u32 = if t.eq(&"generate_3d_art".to_owned()) {
        7
    } else if t.eq(&"compose_music".to_owned()) {
        12
    } else if t.eq(&"build_temple".to_owned()) {
        33
    } else {
        1
    };
    (node, node % 99)
}

} // verus!
