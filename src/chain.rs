use vstd::prelude::*;

verus! {

/// The closed set of block kinds that a chain can hold.
#[derive(Debug, Clone, Copy, PartialEq, Eq, Structural)]
pub enum BlockKind {
    PhysicalDeviceProperties2,
    Vulkan11Properties,
    Vulkan12Properties,
    Vulkan13Properties,
    Vulkan14Properties,
    PhysicalDeviceFeatures2,
    Vulkan11Features,
    Vulkan12Features,
    Vulkan13Features,
    Vulkan14Features,
    ExtendedDynamicStateFeatures,
}

/// The foreign structure-type identifier of each block kind.
pub open spec fn tag_of(kind: BlockKind) -> u32 {
    match kind {
        BlockKind::PhysicalDeviceProperties2 => 1000059001,
        BlockKind::Vulkan11Properties => 50,
        BlockKind::Vulkan12Properties => 52,
        BlockKind::Vulkan13Properties => 54,
        BlockKind::Vulkan14Properties => 56,
        BlockKind::PhysicalDeviceFeatures2 => 1000059000,
        BlockKind::Vulkan11Features => 49,
        BlockKind::Vulkan12Features => 51,
        BlockKind::Vulkan13Features => 53,
        BlockKind::Vulkan14Features => 55,
        BlockKind::ExtendedDynamicStateFeatures => 1000267000,
    }
}

impl BlockKind {
    /// The structure-type identifier written into a block of this kind.
    pub fn structure_type(self) -> (r: u32)
        ensures
            r == tag_of(self),
    {
        match self {
            BlockKind::PhysicalDeviceProperties2 => 1000059001,
            BlockKind::Vulkan11Properties => 50,
            BlockKind::Vulkan12Properties => 52,
            BlockKind::Vulkan13Properties => 54,
            BlockKind::Vulkan14Properties => 56,
            BlockKind::PhysicalDeviceFeatures2 => 1000059000,
            BlockKind::Vulkan11Features => 49,
            BlockKind::Vulkan12Features => 51,
            BlockKind::Vulkan13Features => 53,
            BlockKind::Vulkan14Features => 55,
            BlockKind::ExtendedDynamicStateFeatures => 1000267000,
        }
    }
}

/// One typed block: its tag, the link to the next block (as a position in
/// the chain's storage, `None` for the last one) and its payload words.
#[derive(Debug)]
pub struct Block {
    pub kind: BlockKind,
    pub s_type: u32,
    pub next: Option<usize>,
    pub payload: Vec<u32>,
}

/// Every block carries its own tag and links to the block after it; the
/// last one carries the terminal marker.
pub open spec fn linked(blocks: Seq<Block>) -> bool {
    forall|i: int|
        0 <= i < blocks.len() ==> {
            &&& (#[trigger] blocks[i]).s_type == tag_of(blocks[i].kind)
            &&& blocks[i].next == if i + 1 < blocks.len() {
                Some((i + 1) as usize)
            } else {
                None::<usize>
            }
        }
}

/// The positions visited by following links from `at`, for at most `fuel` steps.
pub open spec fn walk_from(blocks: Seq<Block>, at: Option<usize>, fuel: nat) -> Seq<usize>
    decreases fuel,
{
    match at {
        Some(i) => if fuel == 0 || i >= blocks.len() {
            Seq::empty()
        } else {
            seq![i].add(walk_from(blocks, blocks[i as int].next, (fuel - 1) as nat))
        },
        None => Seq::empty(),
    }
}

/// The first block's position, if there is one.
pub open spec fn head_of(blocks: Seq<Block>) -> Option<usize> {
    if blocks.len() == 0 {
        None
    } else {
        Some(0usize)
    }
}

pub open spec fn positions(n: nat) -> Seq<usize> {
    Seq::new(n, |i: int| i as usize)
}

proof fn lemma_walk_tail(blocks: Seq<Block>, k: nat)
    requires
        linked(blocks),
        k < blocks.len(),
        blocks.len() <= usize::MAX,
    ensures
        walk_from(blocks, Some(k as usize), (blocks.len() - k) as nat) =~= Seq::new(
            (blocks.len() - k) as nat,
            |i: int| (k + i) as usize,
        ),
    decreases blocks.len() - k,
{
    let n = blocks.len();
    let _ = blocks[k as int];
    if k + 1 < n {
        lemma_walk_tail(blocks, k + 1);
    } else {
        assert(walk_from(blocks, None, 0) == Seq::<usize>::empty());
    }
}

/// Walking a linked chain from its head visits every block once, in the
/// order the blocks were given.
pub proof fn lemma_walk_visits_each_once(blocks: Seq<Block>)
    requires
        linked(blocks),
        blocks.len() <= usize::MAX,
    ensures
        walk_from(blocks, head_of(blocks), blocks.len()) == positions(blocks.len()),
        blocks.len() > 0 ==> blocks.last().next is None,
{
    if blocks.len() > 0 {
        lemma_walk_tail(blocks, 0);
        assert(walk_from(blocks, head_of(blocks), blocks.len()) =~= positions(blocks.len()));
        let _ = blocks[blocks.len() - 1];
    }
}

/// Collects blocks in the order the caller gives them; `finish` links them.
pub struct ChainBuilder {
    blocks: Vec<Block>,
}

/// A fully linked chain whose storage no longer grows, so each block keeps
/// its place for as long as the chain lives.
pub struct Chain {
    blocks: Vec<Block>,
}

impl View for ChainBuilder {
    type V = Seq<Block>;

    closed spec fn view(&self) -> Seq<Block> {
        self.blocks@
    }
}

impl View for Chain {
    type V = Seq<Block>;

    closed spec fn view(&self) -> Seq<Block> {
        self.blocks@
    }
}

/// The same blocks, in the same order, with the same payloads.
pub open spec fn same_blocks(a: Seq<Block>, b: Seq<Block>) -> bool {
    &&& a.len() == b.len()
    &&& forall|i: int|
        0 <= i < a.len() ==> (#[trigger] a[i]).kind == b[i].kind && a[i].payload@ == b[i].payload@
}

impl ChainBuilder {
    pub fn new() -> (r: ChainBuilder)
        ensures
            r@ == Seq::<Block>::empty(),
    {
        ChainBuilder { blocks: Vec::new() }
    }

    /// Appends a block whose payload the caller has filled (write mode).
    pub fn push(&mut self, kind: BlockKind, payload: Vec<u32>)
        ensures
            final(self)@.len() == old(self)@.len() + 1,
            final(self)@.take(old(self)@.len() as int) == old(self)@,
            final(self)@.last().kind == kind,
            final(self)@.last().payload@ == payload@,
    {
        self.blocks.push(Block { kind, s_type: 0, next: None, payload });
        proof {
            assert(final(self)@.take(old(self)@.len() as int) =~= old(self)@);
        }
    }

    /// Appends a block of `len` zero words, for the foreign call to fill (read mode).
    pub fn push_zeroed(&mut self, kind: BlockKind, len: usize)
        ensures
            final(self)@.len() == old(self)@.len() + 1,
            final(self)@.take(old(self)@.len() as int) == old(self)@,
            final(self)@.last().kind == kind,
            final(self)@.last().payload@ == Seq::new(len as nat, |i: int| 0u32),
    {
        let mut payload: Vec<u32> = Vec::new();
        let mut k: usize = 0;
        while k < len
            invariant
                k <= len,
                payload@ == Seq::new(k as nat, |i: int| 0u32),
            decreases len - k,
        {
            payload.push(0);
            k = k + 1;
            proof {
                assert(payload@ =~= Seq::new(k as nat, |i: int| 0u32));
            }
        }
        self.push(kind, payload);
    }

    /// Sets every tag and links each block to the next, keeping the caller's order.
    pub fn finish(self) -> (r: Chain)
        ensures
            linked(r@),
            same_blocks(r@, self@),
    {
        let mut blocks = self.blocks;
        let n = blocks.len();
        let ghost orig = blocks@;
        let mut i: usize = 0;
        while i < n
            invariant
                n == blocks@.len(),
                i <= n,
                same_blocks(blocks@, orig),
                forall|j: int|
                    0 <= j < i ==> {
                        &&& (#[trigger] blocks@[j]).s_type == tag_of(blocks@[j].kind)
                        &&& blocks@[j].next == if j + 1 < n {
                            Some((j + 1) as usize)
                        } else {
                            None::<usize>
                        }
                    },
            decreases n - i,
        {
            let mut b = blocks[i].clone_block();
            b.s_type = b.kind.structure_type();
            b.next = if i + 1 < n {
                Some(i + 1)
            } else {
                None
            };
            blocks.set(i, b);
            i = i + 1;
        }
        Chain { blocks }
    }
}

impl Block {
    /// A copy of this block.
    pub fn clone_block(&self) -> (r: Block)
        ensures
            r.kind == self.kind,
            r.s_type == self.s_type,
            r.next == self.next,
            r.payload@ == self.payload@,
    {
        let mut payload: Vec<u32> = Vec::new();
        let mut k: usize = 0;
        while k < self.payload.len()
            invariant
                k <= self.payload@.len(),
                payload@ == self.payload@.take(k as int),
            decreases self.payload@.len() - k,
        {
            payload.push(self.payload[k]);
            k = k + 1;
            proof {
                assert(payload@ =~= self.payload@.take(k as int));
            }
        }
        proof {
            assert(payload@ =~= self.payload@);
        }
        Block { kind: self.kind, s_type: self.s_type, next: self.next, payload }
    }
}

impl Chain {
    pub fn len(&self) -> (r: usize)
        ensures
            r == self@.len(),
    {
        self.blocks.len()
    }

    /// The position of the first block, handed to the foreign call.
    pub fn head(&self) -> (r: Option<usize>)
        ensures
            r == head_of(self@),
    {
        if self.blocks.len() == 0 {
            None
        } else {
            Some(0)
        }
    }

    /// The block at position `i`.
    pub fn block(&self, i: usize) -> (r: &Block)
        requires
            i < self@.len(),
        ensures
            *r == self@[i as int],
    {
        &self.blocks[i]
    }

    /// Replaces the payload of block `i`, as a filling call does; tags and
    /// links stay as they are.
    pub fn fill(&mut self, i: usize, payload: Vec<u32>)
        requires
            linked(old(self)@),
            i < old(self)@.len(),
        ensures
            linked(final(self)@),
            final(self)@.len() == old(self)@.len(),
            final(self)@[i as int].kind == old(self)@[i as int].kind,
            final(self)@[i as int].payload@ == payload@,
            forall|j: int| 0 <= j < old(self)@.len() && j != i ==> #[trigger] final(self)@[j] == old(self)@[j],
    {
        let b = Block {
            kind: self.blocks[i].kind,
            s_type: self.blocks[i].s_type,
            next: self.blocks[i].next,
            payload,
        };
        self.blocks.set(i, b);
    }

    /// The positions met by following the links from the head, at most one
    /// step per block.
    pub fn walk(&self) -> (r: Vec<usize>)
        requires
            linked(self@),
        ensures
            r@ == walk_from(self@, head_of(self@), self@.len()),
            r@ == positions(self@.len()),
    {
        let n = self.blocks.len();
        proof {
            lemma_walk_visits_each_once(self@);
        }
        let mut out: Vec<usize> = Vec::new();
        let mut at = self.head();
        let mut steps: usize = 0;
        while steps < n
            invariant
                n == self@.len(),
                linked(self@),
                steps <= n,
                out@ == positions(steps as nat),
                steps < n ==> at == Some(steps),
            decreases n - steps,
        {
            let i = match at {
                Some(i) => i,
                None => 0,
            };
            out.push(i);
            at = self.blocks[i].next;
            steps = steps + 1;
            proof {
                assert(out@ =~= positions(steps as nat));
            }
        }
        out
    }
}

} // verus!
