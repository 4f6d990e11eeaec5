//! The block record fetched from the data provider, and its mathematical
//! model.

use vstd::prelude::*;

verus! {

/// Spec-level image of a block record: identifiers as character sequences,
/// counters as unbounded naturals.
pub ghost struct BlockModel {
    pub id: Seq<char>,
    pub parent: Seq<char>,
    pub height: nat,
    pub timestamp: nat,
    pub tx_count: nat,
    pub size: nat,
    pub weight: nat,
}

/// One block as reported by the data provider. The `parent` field is the
/// identifier of the previous block; following it repeatedly walks the
/// chain backwards.
pub struct BlockRecord {
    pub id: String,
    pub parent: String,
    pub height: u64,
    pub timestamp: u64,
    pub tx_count: u64,
    pub size: u64,
    pub weight: u64,
}

impl View for BlockRecord {
    type V = BlockModel;

    open spec fn view(&self) -> BlockModel {
        BlockModel {
            id: self.id@,
            parent: self.parent@,
            height: self.height as nat,
            timestamp: self.timestamp as nat,
            tx_count: self.tx_count as nat,
            size: self.size as nat,
            weight: self.weight as nat,
        }
    }
}

/// The models of a sequence of fetched records.
pub open spec fn models_of(s: Seq<BlockRecord>) -> Seq<BlockModel> {
    s.map_values(|b: BlockRecord| b@)
}

} // verus!
