//! The label table: the address bound to each label name.

use vstd::prelude::*;
use vstd::hash_map::StringHashMap;
use crate::address::{AddressedLine, AddressedLineView};
use crate::line::{Line, LineView};

verus! {

/// A mapping from label names, each with its leading `:`, to addresses.
pub struct LabelTable {
    entries: StringHashMap<i16>,
}

impl View for LabelTable {
    type V = Map<Seq<char>, i16>;

    closed spec fn view(&self) -> Map<Seq<char>, i16> {
        self.entries@
    }
}

impl LabelTable {
    /// A table that binds no name.
    pub fn new() -> (table: LabelTable)
        ensures
            table@ == Map::<Seq<char>, i16>::empty(),
    {
        LabelTable { entries: StringHashMap::new() }
    }

    /// Binds `name` to `address`, replacing any earlier binding of `name`.
    pub fn insert(&mut self, name: String, address: i16)
        ensures
            final(self)@ == old(self)@.insert(name@, address),
    {
        self.entries.insert(name, address);
    }

    /// The address bound to `name`, if any.
    pub fn get(&self, name: &str) -> (address: Option<i16>)
        ensures
            address == (if self@.contains_key(name@) {
                Some(self@[name@])
            } else {
                None
            }),
    {
        match self.entries.get(name) {
            Some(address) => Some(*address),
            None => None,
        }
    }

    /// The number of names bound.
    pub fn len(&self) -> (count: usize)
        ensures
            count == self@.len(),
    {
        self.entries.len()
    }
}

/// The bindings made by the label definitions of `lines`, read in order: a
/// definition binds its name to its own address, and a later definition of
/// the same name replaces an earlier one.
pub open spec fn label_addresses(lines: Seq<AddressedLineView>) -> Map<Seq<char>, i16>
    decreases lines.len(),
{
    if lines.len() == 0 {
        Map::empty()
    } else {
        let earlier = label_addresses(lines.drop_last());
        match lines.last().line {
            LineView::LabelDefinition { name } => earlier.insert(name, lines.last().address),
            LineView::Instruction { .. } => earlier,
        }
    }
}

/// Whether `line` defines the label `name`.
pub open spec fn defines(line: AddressedLineView, name: Seq<char>) -> bool {
    line.line == (LineView::LabelDefinition { name })
}

/// A name is bound exactly when some line defines it.
pub proof fn lemma_bound_iff_defined(lines: Seq<AddressedLineView>, name: Seq<char>)
    ensures
        label_addresses(lines).contains_key(name) <==> exists|d: int|
            0 <= d < lines.len() && defines(#[trigger] lines[d], name),
    decreases lines.len(),
{
    if lines.len() > 0 {
        let earlier = lines.drop_last();
        lemma_bound_iff_defined(earlier, name);
        if exists|d: int| 0 <= d < lines.len() && defines(#[trigger] lines[d], name) {
            let d = choose|d: int| 0 <= d < lines.len() && defines(#[trigger] lines[d], name);
            if d < lines.len() - 1 {
                assert(defines(earlier[d], name));
            }
        }
    }
}

/// A name is bound to the address of its last definition.
pub proof fn lemma_last_definition_binds(lines: Seq<AddressedLineView>, name: Seq<char>, d: int)
    requires
        0 <= d < lines.len(),
        defines(lines[d], name),
        forall|k: int| d < k < lines.len() ==> !defines(#[trigger] lines[k], name),
    ensures
        label_addresses(lines).contains_key(name),
        label_addresses(lines)[name] == lines[d].address,
    decreases lines.len(),
{
    if d < lines.len() - 1 {
        lemma_last_definition_binds(lines.drop_last(), name, d);
    }
}

/// Builds the label table of an addressed program.
pub fn find_labels(lines: &Vec<AddressedLine>) -> (labels: LabelTable)
    ensures
        labels@ == label_addresses(lines.deep_view()),
{
    let ghost all = lines.deep_view();
    let mut labels = LabelTable::new();
    for entry in it: lines.iter()
        invariant
            all == lines.deep_view(),
            it.seq().len() == lines.len(),
            forall|k: int| 0 <= k < lines.len() ==> *(#[trigger] it.seq()[k]) == lines[k],
            labels@ == label_addresses(all.take(it.index() as int)),
    {
        assert(all.take(it.index() + 1).drop_last() == all.take(it.index() as int));
        match &entry.line {
            Line::LabelDefinition { name } => {
                labels.insert(name.clone(), entry.address);
            },
            Line::Instruction { .. } => {},
        }
    }
    assert(all.take(lines.len() as int) == all);
    labels
}

} // verus!
