use vstd::prelude::*;

use crate::error::{SwppErrorKind, SwppRawResult};
use crate::program::SwppBlock;

verus! {

/// Block `i` of `bl` is named `name`.
pub open spec fn block_named(bl: Seq<SwppBlock>, i: int, name: Seq<char>) -> bool {
    0 <= i < bl.len() && bl[i].block_name@ == name
}

pub open spec fn has_block_named(bl: Seq<SwppBlock>, name: Seq<char>) -> bool {
    exists|i: int| block_named(bl, i, name)
}

/// The index of the last block named `name`: a later block of the same name
/// shadows an earlier one.
pub open spec fn last_block_index(bl: Seq<SwppBlock>, name: Seq<char>) -> int {
    choose|i: int|
        block_named(bl, i, name) && forall|j: int| i < j < bl.len() ==> bl[j].block_name@ != name
}

pub proof fn lemma_last_block_index(bl: Seq<SwppBlock>, name: Seq<char>, i: int)
    requires
        block_named(bl, i, name),
        forall|j: int| i < j < bl.len() ==> bl[j].block_name@ != name,
    ensures
        last_block_index(bl, name) == i,
{
    let k = last_block_index(bl, name);
    if k != i {
        if k < i {
            assert(bl[i].block_name@ == name);
        } else {
            assert(bl[k].block_name@ == name);
        }
    }
}

/// Every register the instructions of `bl` name exists.
pub open spec fn blocks_wf(bl: Seq<SwppBlock>) -> bool {
    forall|b: int, i: int|
        0 <= b < bl.len() && 0 <= i < bl[b].inst_vec@.len() ==> (#[trigger] bl[b].inst_vec@[i]).wf()
}

/// A function is a set of named blocks; execution starts at the first one.
#[derive(Debug)]
pub struct SwppFunction {
    /// Function name
    fname: String,
    /// The number of arguments
    nargs: u64,
    /// The starting block of the function
    entry: String,
    /// The blocks of the function, in order
    blocks: Vec<SwppBlock>,
}

impl SwppFunction {
    pub closed spec fn spec_fname(self) -> Seq<char> {
        self.fname@
    }

    pub closed spec fn spec_nargs(self) -> u64 {
        self.nargs
    }

    pub closed spec fn spec_entry(self) -> Seq<char> {
        self.entry@
    }

    pub closed spec fn spec_blocks(self) -> Seq<SwppBlock> {
        self.blocks@
    }

    /// The function has a block, and its entry is the name of the first one.
    pub open spec fn wf(self) -> bool {
        &&& self.spec_blocks().len() > 0
        &&& self.spec_entry() == self.spec_blocks()[0].block_name@
    }

    pub fn new(fname: String, nargs: u64, blocks: Vec<SwppBlock>) -> (res: Self)
        requires
            blocks@.len() > 0,
        ensures
            res.wf(),
            res.spec_fname() == fname@,
            res.spec_nargs() == nargs,
            res.spec_blocks() == blocks@,
    {
        let entry = blocks[0].block_name.clone();
        Self { fname, nargs, entry, blocks }
    }

    fn find_block(&self, block_name: &String) -> (res: Option<usize>)
        ensures
            match res {
                Some(i) => has_block_named(self.spec_blocks(), block_name@) && i
                    == last_block_index(self.spec_blocks(), block_name@) && i
                    < self.spec_blocks().len(),
                None => !has_block_named(self.spec_blocks(), block_name@),
            },
    {
        let mut i: usize = self.blocks.len();
        while i > 0
            invariant
                i <= self.blocks@.len(),
                forall|j: int|
                    i <= j < self.blocks@.len() ==> #[trigger] self.blocks@[j].block_name@
                        != block_name@,
            decreases i,
        {
            if self.blocks[i - 1].block_name == *block_name {
                proof {
                    assert(block_named(self.blocks@, i - 1, block_name@));
                    lemma_last_block_index(self.blocks@, block_name@, i - 1);
                }
                return Some(i - 1);
            }
            i = i - 1;
        }
        None
    }

    /// The position of the block named `block_name` (the last of that name).
    pub fn get_block_index(&self, block_name: &str) -> (res: SwppRawResult<u64>)
        ensures
            res matches Ok(i) ==> has_block_named(self.spec_blocks(), block_name@) && i
                == last_block_index(self.spec_blocks(), block_name@),
            res matches Err(e) ==> !has_block_named(self.spec_blocks(), block_name@) && e@
                == crate::error::ErrorKindView::UnknownBlockName(block_name@),
            res is Ok <==> has_block_named(self.spec_blocks(), block_name@),
    {
        let name = block_name.to_owned();
        self.get_block_index_of(&name)
    }

    pub fn get_block_index_of(&self, block_name: &String) -> (res: SwppRawResult<u64>)
        ensures
            res matches Ok(i) ==> has_block_named(self.spec_blocks(), block_name@) && i
                == last_block_index(self.spec_blocks(), block_name@),
            res matches Err(e) ==> !has_block_named(self.spec_blocks(), block_name@) && e@
                == crate::error::ErrorKindView::UnknownBlockName(block_name@),
            res is Ok <==> has_block_named(self.spec_blocks(), block_name@),
    {
        match self.find_block(block_name) {
            Some(i) => Ok(i as u64),
            None => Err(SwppErrorKind::UnknownBlockName(block_name.clone())),
        }
    }

    pub fn get_entry_block_name(&self) -> (res: String)
        ensures
            res@ == self.spec_entry(),
    {
        self.entry.clone()
    }

    /// The block named `block_name` (the last of that name).
    pub fn get_block(&self, block_name: &str) -> (res: SwppRawResult<&SwppBlock>)
        ensures
            res matches Ok(b) ==> has_block_named(self.spec_blocks(), block_name@) && *b
                == self.spec_blocks()[last_block_index(self.spec_blocks(), block_name@)] && 0
                <= last_block_index(self.spec_blocks(), block_name@) < self.spec_blocks().len(),
            res matches Err(e) ==> !has_block_named(self.spec_blocks(), block_name@) && e@
                == crate::error::ErrorKindView::UnknownBlockName(block_name@),
            res is Ok <==> has_block_named(self.spec_blocks(), block_name@),
    {
        let name = block_name.to_owned();
        self.get_block_of(&name)
    }

    pub fn get_block_of(&self, block_name: &String) -> (res: SwppRawResult<&SwppBlock>)
        ensures
            res matches Ok(b) ==> has_block_named(self.spec_blocks(), block_name@) && *b
                == self.spec_blocks()[last_block_index(self.spec_blocks(), block_name@)] && 0
                <= last_block_index(self.spec_blocks(), block_name@) < self.spec_blocks().len(),
            res matches Err(e) ==> !has_block_named(self.spec_blocks(), block_name@) && e@
                == crate::error::ErrorKindView::UnknownBlockName(block_name@),
            res is Ok <==> has_block_named(self.spec_blocks(), block_name@),
    {
        match self.find_block(block_name) {
            Some(i) => Ok(&self.blocks[i]),
            None => Err(SwppErrorKind::UnknownBlockName(block_name.clone())),
        }
    }

    pub fn nargs(&self) -> (res: u64)
        ensures
            res == self.spec_nargs(),
    {
        self.nargs
    }

    pub fn fname(&self) -> (res: String)
        ensures
            res@ == self.spec_fname(),
    {
        self.fname.clone()
    }
}

} // verus!
