//! Buffers, kernels and compute graphs, as plain values.
//!
//! A `Context` records how every device buffer starts out, a `Tensor` is a
//! handle on one of those buffers, and a `ComputeGraph` is the list of kernel
//! dispatches that a runtime performs in order.
use crate::nn::kernels::meta::Meta;
use vstd::prelude::*;

verus! {

/// How a kernel uses one bound buffer.
#[derive(Clone, Copy, Debug, PartialEq, Eq, Structural)]
pub enum TensorMode {
    Input,
    Output,
    InOut,
    Accumulate,
    Meta,
}

/// A real number that the device stores in single precision. It is kept as the
/// expression it comes from; the runtime evaluates it.
#[derive(Clone, Copy, Debug, PartialEq, Eq, Structural)]
pub enum Scalar {
    /// `digits * 10^-places`
    Dec { digits: u32, places: u32 },
    /// `1 / n`
    Recip(u64),
    /// `1 / sqrt(n)`
    RecipSqrt(u32),
}

/// One 32-bit word of a meta record.
#[derive(Clone, Copy, Debug, PartialEq, Eq, Structural)]
pub enum Word {
    Int(u32),
    Real(Scalar),
}

/// What a buffer holds when it is created.
#[derive(Clone, Copy, Debug, PartialEq, Eq, Structural)]
pub enum Init {
    /// `n` zero words.
    Zeros(u32),
    /// `n` copies of one real.
    Fill(u32, Scalar),
    /// `n` independent normal draws of the given mean and deviation.
    Normal(u32, Scalar, Scalar),
    /// A kernel's meta record.
    Meta(Meta),
}

impl Init {
    /// Number of 32-bit words in the buffer.
    pub open spec fn words(self) -> nat {
        match self {
            Init::Zeros(n) => n as nat,
            Init::Fill(n, _) => n as nat,
            Init::Normal(n, _, _) => n as nat,
            Init::Meta(m) => m.spec_words().len(),
        }
    }
}

/// A handle on one buffer of a context: its number, and its size in bytes.
#[derive(Clone, Copy, Debug, PartialEq, Eq, Structural)]
pub struct Tensor {
    pub id: usize,
    pub size: u64,
}

/// The handle that a context holding `c` gives to the next buffer.
pub open spec fn next_tensor(c: Seq<Init>, init: Init) -> Tensor {
    Tensor { id: c.len() as usize, size: (4 * init.words()) as u64 }
}

/// The next buffer of `c`, for `n` zero words.
pub open spec fn next_zeros(c: Seq<Init>, n: int) -> Tensor {
    next_tensor(c, Init::Zeros(n as u32))
}

/// The next buffer of `c`, for a meta record.
pub open spec fn next_meta(c: Seq<Init>, m: Meta) -> Tensor {
    next_tensor(c, Init::Meta(m))
}

/// `c` with one more buffer of `n` zero words.
pub open spec fn push_zeros(c: Seq<Init>, n: int) -> Seq<Init> {
    c.push(Init::Zeros(n as u32))
}

/// `c` with one more meta buffer.
pub open spec fn push_meta(c: Seq<Init>, m: Meta) -> Seq<Init> {
    c.push(Init::Meta(m))
}

/// Every buffer that has been asked for, in order of creation.
#[derive(Debug)]
pub struct Context {
    inits: Vec<Init>,
}

impl View for Context {
    type V = Seq<Init>;

    closed spec fn view(&self) -> Seq<Init> {
        self.inits@
    }
}

impl Context {
    pub fn new() -> (r: Context)
        ensures
            r@ == Seq::<Init>::empty(),
    {
        Context { inits: Vec::new() }
    }

    /// Number of buffers.
    pub fn len(&self) -> (r: usize)
        ensures
            r == self@.len(),
    {
        self.inits.len()
    }

    /// How buffer `i` starts out.
    pub fn init(&self, i: usize) -> (r: Init)
        requires
            i < self@.len(),
        ensures
            r == self@[i as int],
    {
        self.inits[i]
    }

    /// A new buffer of `n` zero words.
    pub fn zeros(&mut self, n: u32) -> (r: Tensor)
        ensures
            final(self)@ == push_zeros(old(self)@, n as int),
            r == next_zeros(old(self)@, n as int),
    {
        let id: usize = self.inits.len();
        self.inits.push(Init::Zeros(n));
        Tensor { id, size: n as u64 * 4 }
    }

    /// A new buffer of `n` copies of `value`.
    pub fn fill(&mut self, n: u32, value: Scalar) -> (r: Tensor)
        ensures
            final(self)@ == old(self)@.push(Init::Fill(n, value)),
            r == next_tensor(old(self)@, Init::Fill(n, value)),
    {
        let id: usize = self.inits.len();
        self.inits.push(Init::Fill(n, value));
        Tensor { id, size: n as u64 * 4 }
    }

    /// A new buffer of `n` normal draws.
    pub fn normal(&mut self, n: u32, mean: Scalar, deviation: Scalar) -> (r: Tensor)
        ensures
            final(self)@ == old(self)@.push(Init::Normal(n, mean, deviation)),
            r == next_tensor(old(self)@, Init::Normal(n, mean, deviation)),
    {
        let id: usize = self.inits.len();
        self.inits.push(Init::Normal(n, mean, deviation));
        Tensor { id, size: n as u64 * 4 }
    }

    /// A new buffer holding a meta record.
    pub fn meta(&mut self, m: Meta) -> (r: Tensor)
        ensures
            final(self)@ == push_meta(old(self)@, m),
            r == next_meta(old(self)@, m),
    {
        let id: usize = self.inits.len();
        self.inits.push(Init::Meta(m));
        Tensor { id, size: m.words().len() as u64 * 4 }
    }
}

/// The kernels that graphs dispatch.
#[derive(Clone, Copy, Debug, PartialEq, Eq, Structural)]
pub enum Kernel {
    MatMul,
    Gemv,
    MatMulTrp,
    MatMulAdd,
    GemvAdd,
    MatMulWeightBwd,
    ResidualAdd,
    BwdAddInplace,
    ZeroTensor,
    RmsNorm,
    RmsNormBwd,
    RmsNormWeightBwd,
    Embedding,
    EmbeddingBwd,
    Rope,
    RopeBwd,
    RopeOffset,
    RopeQk,
    RopeBwdQk,
    HeadGather,
    HeadScatter,
    QkvSplit,
    QkvScatter,
    AttnQkCached,
    AttnAvCached,
    SoftmaxRect,
    CausalSoftmax,
    SoftmaxBwd,
    FlashAttention,
    FlashAttentionBwdD,
    FlashAttentionBwdDq,
    FlashAttentionBwdDkDv,
    FlashAttentionBwdDqFromOut,
    FlashAttentionBwdDkDvFromOut,
    CacheWrite,
    Silu,
    SiluOut,
    SiluBwd,
    Add,
    GradSumSq,
    GradNormScale,
    GradScale,
    CrossEntropy,
    CrossEntropyBwd,
    CrossEntropyProbs,
    CrossEntropyProbsBwd,
}

/// The binding slots of each kernel, in order.
pub open spec fn layout(k: Kernel) -> Seq<TensorMode> {
    match k {
        Kernel::MatMul | Kernel::Gemv | Kernel::MatMulTrp | Kernel::RmsNorm | Kernel::Embedding
        | Kernel::AttnQkCached | Kernel::AttnAvCached | Kernel::SoftmaxBwd
        | Kernel::FlashAttentionBwdD => seq![
            TensorMode::Input,
            TensorMode::Input,
            TensorMode::Output,
            TensorMode::Meta,
        ],
        Kernel::MatMulAdd | Kernel::GemvAdd | Kernel::MatMulWeightBwd | Kernel::EmbeddingBwd => seq![
            TensorMode::Input,
            TensorMode::Input,
            TensorMode::Accumulate,
            TensorMode::Meta,
        ],
        Kernel::ResidualAdd | Kernel::BwdAddInplace => seq![
            TensorMode::Accumulate,
            TensorMode::Input,
        ],
        Kernel::ZeroTensor => seq![TensorMode::Output, TensorMode::Meta],
        Kernel::RmsNormBwd => seq![
            TensorMode::Input,
            TensorMode::Input,
            TensorMode::Input,
            TensorMode::Output,
            TensorMode::Output,
            TensorMode::Meta,
        ],
        Kernel::RmsNormWeightBwd => seq![
            TensorMode::Input,
            TensorMode::Input,
            TensorMode::Input,
            TensorMode::Accumulate,
            TensorMode::Meta,
        ],
        Kernel::Rope | Kernel::RopeBwd | Kernel::RopeOffset | Kernel::SoftmaxRect
        | Kernel::CausalSoftmax => seq![TensorMode::InOut, TensorMode::Meta],
        Kernel::RopeQk | Kernel::RopeBwdQk => seq![
            TensorMode::InOut,
            TensorMode::InOut,
            TensorMode::Meta,
        ],
        Kernel::HeadGather | Kernel::HeadScatter | Kernel::GradSumSq | Kernel::GradNormScale => seq![
            TensorMode::Input,
            TensorMode::Output,
            TensorMode::Meta,
        ],
        Kernel::QkvSplit => seq![
            TensorMode::Input,
            TensorMode::Output,
            TensorMode::Output,
            TensorMode::Output,
            TensorMode::Meta,
        ],
        Kernel::QkvScatter => seq![
            TensorMode::Input,
            TensorMode::Input,
            TensorMode::Input,
            TensorMode::Output,
            TensorMode::Meta,
        ],
        Kernel::FlashAttention => seq![
            TensorMode::Input,
            TensorMode::Input,
            TensorMode::Input,
            TensorMode::Output,
            TensorMode::Output,
            TensorMode::Meta,
        ],
        Kernel::FlashAttentionBwdDq | Kernel::FlashAttentionBwdDqFromOut => seq![
            TensorMode::Input,
            TensorMode::Input,
            TensorMode::Input,
            TensorMode::Input,
            TensorMode::Input,
            TensorMode::Input,
            TensorMode::Output,
            TensorMode::Meta,
        ],
        Kernel::FlashAttentionBwdDkDv | Kernel::FlashAttentionBwdDkDvFromOut => seq![
            TensorMode::Input,
            TensorMode::Input,
            TensorMode::Input,
            TensorMode::Input,
            TensorMode::Input,
            TensorMode::Input,
            TensorMode::Output,
            TensorMode::Output,
            TensorMode::Meta,
        ],
        Kernel::CacheWrite => seq![TensorMode::Input, TensorMode::InOut, TensorMode::Meta],
        Kernel::Silu => seq![TensorMode::InOut],
        Kernel::SiluOut => seq![TensorMode::Input, TensorMode::Output],
        Kernel::SiluBwd | Kernel::Add => seq![
            TensorMode::Input,
            TensorMode::Input,
            TensorMode::Output,
        ],
        Kernel::GradScale => seq![TensorMode::InOut, TensorMode::Input, TensorMode::Meta],
        Kernel::CrossEntropy => seq![
            TensorMode::InOut,
            TensorMode::Input,
            TensorMode::Output,
            TensorMode::Meta,
        ],
        Kernel::CrossEntropyBwd => seq![
            TensorMode::InOut,
            TensorMode::Input,
            TensorMode::Input,
            TensorMode::Meta,
        ],
        Kernel::CrossEntropyProbs => seq![
            TensorMode::Input,
            TensorMode::Input,
            TensorMode::Output,
            TensorMode::Output,
            TensorMode::Meta,
        ],
        Kernel::CrossEntropyProbsBwd => seq![
            TensorMode::Input,
            TensorMode::Input,
            TensorMode::Input,
            TensorMode::Output,
            TensorMode::Meta,
        ],
    }
}

impl Kernel {
    /// The binding slots of this kernel.
    pub fn layout(&self) -> (r: Vec<TensorMode>)
        ensures
            r@ == layout(*self),
    {
        match self {
            Kernel::MatMul | Kernel::Gemv | Kernel::MatMulTrp | Kernel::RmsNorm | Kernel::Embedding
            | Kernel::AttnQkCached | Kernel::AttnAvCached | Kernel::SoftmaxBwd
            | Kernel::FlashAttentionBwdD => vec![
                TensorMode::Input,
                TensorMode::Input,
                TensorMode::Output,
                TensorMode::Meta,
            ],
            Kernel::MatMulAdd | Kernel::GemvAdd | Kernel::MatMulWeightBwd | Kernel::EmbeddingBwd => vec![
                TensorMode::Input,
                TensorMode::Input,
                TensorMode::Accumulate,
                TensorMode::Meta,
            ],
            Kernel::ResidualAdd | Kernel::BwdAddInplace => vec![
                TensorMode::Accumulate,
                TensorMode::Input,
            ],
            Kernel::ZeroTensor => vec![TensorMode::Output, TensorMode::Meta],
            Kernel::RmsNormBwd => vec![
                TensorMode::Input,
                TensorMode::Input,
                TensorMode::Input,
                TensorMode::Output,
                TensorMode::Output,
                TensorMode::Meta,
            ],
            Kernel::RmsNormWeightBwd => vec![
                TensorMode::Input,
                TensorMode::Input,
                TensorMode::Input,
                TensorMode::Accumulate,
                TensorMode::Meta,
            ],
            Kernel::Rope | Kernel::RopeBwd | Kernel::RopeOffset | Kernel::SoftmaxRect
            | Kernel::CausalSoftmax => vec![TensorMode::InOut, TensorMode::Meta],
            Kernel::RopeQk | Kernel::RopeBwdQk => vec![
                TensorMode::InOut,
                TensorMode::InOut,
                TensorMode::Meta,
            ],
            Kernel::HeadGather | Kernel::HeadScatter | Kernel::GradSumSq | Kernel::GradNormScale => vec![
                TensorMode::Input,
                TensorMode::Output,
                TensorMode::Meta,
            ],
            Kernel::QkvSplit => vec![
                TensorMode::Input,
                TensorMode::Output,
                TensorMode::Output,
                TensorMode::Output,
                TensorMode::Meta,
            ],
            Kernel::QkvScatter => vec![
                TensorMode::Input,
                TensorMode::Input,
                TensorMode::Input,
                TensorMode::Output,
                TensorMode::Meta,
            ],
            Kernel::FlashAttention => vec![
                TensorMode::Input,
                TensorMode::Input,
                TensorMode::Input,
                TensorMode::Output,
                TensorMode::Output,
                TensorMode::Meta,
            ],
            Kernel::FlashAttentionBwdDq | Kernel::FlashAttentionBwdDqFromOut => vec![
                TensorMode::Input,
                TensorMode::Input,
                TensorMode::Input,
                TensorMode::Input,
                TensorMode::Input,
                TensorMode::Input,
                TensorMode::Output,
                TensorMode::Meta,
            ],
            Kernel::FlashAttentionBwdDkDv | Kernel::FlashAttentionBwdDkDvFromOut => vec![
                TensorMode::Input,
                TensorMode::Input,
                TensorMode::Input,
                TensorMode::Input,
                TensorMode::Input,
                TensorMode::Input,
                TensorMode::Output,
                TensorMode::Output,
                TensorMode::Meta,
            ],
            Kernel::CacheWrite => vec![TensorMode::Input, TensorMode::InOut, TensorMode::Meta],
            Kernel::Silu => vec![TensorMode::InOut],
            Kernel::SiluOut => vec![TensorMode::Input, TensorMode::Output],
            Kernel::SiluBwd | Kernel::Add => vec![
                TensorMode::Input,
                TensorMode::Input,
                TensorMode::Output,
            ],
            Kernel::GradScale => vec![TensorMode::InOut, TensorMode::Input, TensorMode::Meta],
            Kernel::CrossEntropy => vec![
                TensorMode::InOut,
                TensorMode::Input,
                TensorMode::Output,
                TensorMode::Meta,
            ],
            Kernel::CrossEntropyBwd => vec![
                TensorMode::InOut,
                TensorMode::Input,
                TensorMode::Input,
                TensorMode::Meta,
            ],
            Kernel::CrossEntropyProbs => vec![
                TensorMode::Input,
                TensorMode::Input,
                TensorMode::Output,
                TensorMode::Output,
                TensorMode::Meta,
            ],
            Kernel::CrossEntropyProbsBwd => vec![
                TensorMode::Input,
                TensorMode::Input,
                TensorMode::Input,
                TensorMode::Output,
                TensorMode::Meta,
            ],
        }
    }
}

/// One dispatch: the kernel, its buffers in slot order, and the workgroup grid.
#[derive(Debug)]
pub struct Node {
    pub kernel: Kernel,
    pub buffers: Vec<Tensor>,
    pub grid: [u32; 3],
}

/// The value of a `Node`.
#[verifier::ext_equal]
pub struct NodeView {
    pub kernel: Kernel,
    pub buffers: Seq<Tensor>,
    pub grid: Seq<u32>,
}

impl View for Node {
    type V = NodeView;

    open spec fn view(&self) -> NodeView {
        NodeView { kernel: self.kernel, buffers: self.buffers@, grid: self.grid@ }
    }
}

impl Node {
    /// The same dispatch once more.
    pub fn duplicate(&self) -> (r: Node)
        ensures
            r@ == self@,
    {
        let mut buffers: Vec<Tensor> = Vec::new();
        let mut i: usize = 0;
        while i < self.buffers.len()
            invariant
                i <= self.buffers@.len(),
                buffers@ == self.buffers@.subrange(0, i as int),
            decreases self.buffers@.len() - i,
        {
            buffers.push(self.buffers[i]);
            i = i + 1;
        }
        assert(buffers@ =~= self.buffers@);
        Node { kernel: self.kernel, buffers, grid: self.grid }
    }
}

/// One buffer bound to one slot.
#[derive(Clone, Copy, Debug, PartialEq, Eq, Structural)]
pub struct Binding {
    pub slot: u32,
    pub buffer: usize,
    pub mode: TensorMode,
}

impl NodeView {
    /// The node binds one buffer to each slot of its kernel.
    pub open spec fn fits(self) -> bool {
        self.buffers.len() == layout(self.kernel).len()
    }

    /// The buffer of slot `i`, with the mode that the kernel gives to that slot.
    pub open spec fn binding(self, i: int) -> Binding {
        Binding {
            slot: i as u32,
            buffer: self.buffers[i].id,
            mode: layout(self.kernel)[i],
        }
    }
}

impl Node {
    /// Every buffer with its slot, and the mode that the kernel gives to the slot.
    pub fn bindings(&self) -> (r: Vec<Binding>)
        requires
            self@.fits(),
        ensures
            r@.len() == self@.buffers.len(),
            forall|i: int| 0 <= i < r@.len() ==> #[trigger] r@[i] == self@.binding(i),
    {
        let modes = self.kernel.layout();
        let mut r: Vec<Binding> = Vec::new();
        let mut i: usize = 0;
        while i < self.buffers.len()
            invariant
                i <= self.buffers@.len(),
                modes@ == layout(self.kernel),
                modes@.len() == self.buffers@.len(),
                r@.len() == i,
                forall|k: int| 0 <= k < i ==> #[trigger] r@[k] == self@.binding(k),
            decreases self.buffers@.len() - i,
        {
            r.push(Binding { slot: i as u32, buffer: self.buffers[i].id, mode: modes[i] });
            i = i + 1;
        }
        r
    }
}

spec fn all_fit(nodes: Seq<Node>) -> bool {
    forall|i: int| 0 <= i < nodes.len() ==> (#[trigger] nodes[i])@.fits()
}

spec fn node_views(nodes: Seq<Node>) -> Seq<NodeView> {
    Seq::new(nodes.len(), |i: int| nodes[i]@)
}

/// A list of dispatches, executed in order.
#[derive(Debug)]
pub struct ComputeGraph {
    nodes: Vec<Node>,
}

impl View for ComputeGraph {
    type V = Seq<NodeView>;

    closed spec fn view(&self) -> Seq<NodeView> {
        node_views(self.nodes@)
    }
}

impl ComputeGraph {
    /// Every dispatch binds one buffer to each slot of its kernel.
    #[verifier::type_invariant]
    spec fn inv(self) -> bool {
        all_fit(self.nodes@)
    }

    pub fn new() -> (r: ComputeGraph)
        ensures
            r@ == Seq::<NodeView>::empty(),
    {
        ComputeGraph { nodes: Vec::new() }
    }

    /// Number of dispatches.
    pub fn len(&self) -> (r: usize)
        ensures
            r == self@.len(),
    {
        self.nodes.len()
    }

    /// The dispatch at position `i`.
    pub fn node(&self, i: usize) -> (r: &Node)
        requires
            i < self@.len(),
        ensures
            r@ == self@[i as int],
            r@.fits(),
    {
        proof {
            use_type_invariant(self);
        }
        &self.nodes[i]
    }

    /// Appends the dispatches of `other`.
    pub fn append(&mut self, other: &ComputeGraph)
        ensures
            final(self)@ == old(self)@ + other@,
    {
        proof {
            use_type_invariant(&*self);
            use_type_invariant(other);
        }
        let ghost before = self@;
        let mut nodes: Vec<Node> = Vec::new();
        std::mem::swap(&mut nodes, &mut self.nodes);
        let mut i: usize = 0;
        assert(other@.subrange(0, 0) =~= Seq::<NodeView>::empty());
        while i < other.nodes.len()
            invariant
                i <= other.nodes@.len(),
                node_views(nodes@) == before + other@.subrange(0, i as int),
                all_fit(nodes@),
                all_fit(other.nodes@),
            decreases other.nodes@.len() - i,
        {
            let ghost prev = node_views(nodes@);
            let node = other.nodes[i].duplicate();
            nodes.push(node);
            i = i + 1;
            assert(node_views(nodes@) =~= prev.push(other@[i - 1]));
            assert(other@.subrange(0, i as int) =~= other@.subrange(0, i - 1).push(other@[i - 1]));
        }
        assert(other@.subrange(0, i as int) =~= other@);
        self.nodes = nodes;
    }

    /// Appends one dispatch.
    pub fn add_node(&mut self, kernel: Kernel, buffers: Vec<Tensor>, grid: [u32; 3])
        requires
            buffers@.len() == layout(kernel).len(),
        ensures
            final(self)@ == old(self)@.push(
                (NodeView { kernel, buffers: buffers@, grid: grid@ }),
            ),
    {
        proof {
            use_type_invariant(&*self);
        }
        let mut nodes: Vec<Node> = Vec::new();
        std::mem::swap(&mut nodes, &mut self.nodes);
        nodes.push(Node { kernel, buffers, grid });
        self.nodes = nodes;
        assert(self@ =~= old(self)@.push(NodeView { kernel, buffers: buffers@, grid: grid@ }));
    }
}

} // verus!
