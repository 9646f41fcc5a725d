//! The codex: tarot cards, codex nodes and circuitum nodes, with their
//! lookups, and the append-only arcana event record.
//!
//! The datasets are parsed from JSON by the surrounding shell and handed
//! in as plain records; the lookups here are verified to return the first
//! matching record or nothing.

use vstd::prelude::*;

verus! {

/// The 22 major arcana.
pub const ARCANA_COUNT: usize = 22;

/// The 72 Shem angels and demons.
pub const SHEM_COUNT: usize = 72;

/// Circuitum nodes in the human circuit.
pub const CIRCUITUM_NODES: usize = 99;

/// Cathedral nodes in the celestial circuit.
pub const CATHEDRAL_NODES: usize = 144;

/// One major arcana card.
pub struct TarotCard {
    pub number: u8,
    pub name: String,
    pub element: String,
    pub planet: String,
    pub hebrew_letter: String,
    pub keywords: Vec<String>,
    pub powers: Vec<String>,
    pub merkaba_chariot: String,
    pub faculty_role: String,
    pub department: String,
    pub specialties: Vec<String>,
    pub frequency_hz: u32,
    pub color: String,
    pub archetype: String,
}

/// A Shem angel/demon pair.
pub struct ShemPair {
    pub angel: String,
    pub demon: String,
}

/// One node of the codex lattice.
pub struct CodexNode {
    pub id: String,
    pub gate: Option<String>,
    pub tree_path: Option<String>,
    pub tarot_overlays: Vec<String>,
    pub character_guides: Vec<String>,
    pub shem: Option<ShemPair>,
    pub numerology: u32,
}

/// One node of the circuitum.
pub struct CircuitumNode {
    pub id: String,
    pub name: String,
    pub node_type: String,
    pub numerology: u32,
    pub lore: String,
    pub art: String,
    pub lab: String,
    pub links: Vec<String>,
}

/// An arcana invocation event, appended to the registry log by the
/// shell.
pub struct ArcanaEvent {
    pub id: Option<i64>,
    pub timestamp: i64,
    pub arcana_number: u8,
    pub arcana_name: String,
    pub ritual_type: String,
}

/// The loaded datasets: tarot cards, codex nodes and circuitum nodes.
pub struct CathedralCore {
    pub tarot_cards: Vec<TarotCard>,
    pub codex_nodes: Vec<CodexNode>,
    pub circuitum_nodes: Vec<CircuitumNode>,
}

impl CathedralCore {
    /// An empty core: no datasets loaded yet.
    pub fn new() -> (r: CathedralCore)
        ensures
            r.tarot_cards@.len() == 0,
            r.codex_nodes@.len() == 0,
            r.circuitum_nodes@.len() == 0,
    {
        CathedralCore { tarot_cards: Vec::new(), codex_nodes: Vec::new(), circuitum_nodes: Vec::new() }
    }

    /// Replaces the tarot dataset with parsed cards.
    pub fn load_tarot_data(&mut self, cards: Vec<TarotCard>)
        ensures
            final(self).tarot_cards == cards,
            final(self).codex_nodes == old(self).codex_nodes,
            final(self).circuitum_nodes == old(self).circuitum_nodes,
    {
        self.tarot_cards = cards;
    }

    /// Replaces the circuitum dataset with parsed nodes.
    pub fn load_circuitum_data(&mut self, nodes: Vec<CircuitumNode>)
        ensures
            final(self).circuitum_nodes == nodes,
            final(self).tarot_cards == old(self).tarot_cards,
            final(self).codex_nodes == old(self).codex_nodes,
    {
        self.circuitum_nodes = nodes;
    }

    /// The first card with the given number, if any.
    pub fn get_card_by_number(&self, number: u8) -> (r: Option<&TarotCard>)
        ensures
            r is Some <==> exists|i: int|
                0 <= i < self.tarot_cards@.len() && (#[trigger] self.tarot_cards@[i]).number
                    == number,
            r matches Some(c) ==> exists|i: int|
                {
                    &&& 0 <= i < self.tarot_cards@.len()
                    &&& (#[trigger] self.tarot_cards@[i]).number == number
                    &&& *c == self.tarot_cards@[i]
                    &&& forall|j: int|
                        0 <= j < i ==> (#[trigger] self.tarot_cards@[j]).number != number
                },
    {
        let n = self.tarot_cards.len();
        let mut i: usize = 0;
        while i < n
            invariant
                i <= n,
                n == self.tarot_cards@.len(),
                forall|j: int|
                    0 <= j < i ==> (#[trigger] self.tarot_cards@[j]).number != number,
            decreases n - i,
        {
            if self.tarot_cards[i].number == number {
                return Some(&self.tarot_cards[i]);
            }
            i = i + 1;
        }
        None
    }

    /// The first card with the given name, if any.
    pub fn get_card_by_name(&self, name: &String) -> (r: Option<&TarotCard>)
        ensures
            r is Some <==> exists|i: int|
                0 <= i < self.tarot_cards@.len() && (#[trigger] self.tarot_cards@[i]).name@
                    == name@,
            r matches Some(c) ==> exists|i: int|
                {
                    &&& 0 <= i < self.tarot_cards@.len()
                    &&& (#[trigger] self.tarot_cards@[i]).name@ == name@
                    &&& *c == self.tarot_cards@[i]
                    &&& forall|j: int|
                        0 <= j < i ==> (#[trigger] self.tarot_cards@[j]).name@ != name@
                },
    {
        let n = self.tarot_cards.len();
        let mut i: usize = 0;
        while i < n
            invariant
                i <= n,
                n == self.tarot_cards@.len(),
                forall|j: int| 0 <= j < i ==> (#[trigger] self.tarot_cards@[j]).name@ != name@,
            decreases n - i,
        {
            if self.tarot_cards[i].name.eq(name) {
                return Some(&self.tarot_cards[i]);
            }
            i = i + 1;
        }
        None
    }

    /// The first circuitum node with the given id, if any.
    pub fn get_node_by_id(&self, id: &String) -> (r: Option<&CircuitumNode>)
        ensures
            r is Some <==> exists|i: int|
                0 <= i < self.circuitum_nodes@.len() && (#[trigger] self.circuitum_nodes@[i]).id@
                    == id@,
            r matches Some(c) ==> exists|i: int|
                {
                    &&& 0 <= i < self.circuitum_nodes@.len()
                    &&& (#[trigger] self.circuitum_nodes@[i]).id@ == id@
                    &&& *c == self.circuitum_nodes@[i]
                    &&& forall|j: int|
                        0 <= j < i ==> (#[trigger] self.circuitum_nodes@[j]).id@ != id@
                },
    {
        let n = self.circuitum_nodes.len();
        let mut i: usize = 0;
        while i < n
            invariant
                i <= n,
                n == self.circuitum_nodes@.len(),
                forall|j: int| 0 <= j < i ==> (#[trigger] self.circuitum_nodes@[j]).id@ != id@,
            decreases n - i,
        {
            if self.circuitum_nodes[i].id.eq(id) {
                return Some(&self.circuitum_nodes[i]);
            }
            i = i + 1;
        }
        None
    }

    /// All loaded major arcana cards.
    pub fn get_all_major_arcana(&self) -> (r: &Vec<TarotCard>)
        ensures
            r == &self.tarot_cards,
    {
        &self.tarot_cards
    }
}

} // verus!
