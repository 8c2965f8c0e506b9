//! Kernel AI engine: the registry of loaded models and of tensors shared
//! between processes without copying.
use vstd::prelude::*;
use std::collections::BTreeMap;
use vstd::slice::slice_to_vec;

verus! {

broadcast use vstd::laws_cmp::group_laws_cmp, vstd::std_specs::btree::group_btree_axioms;

/// Process identifier.
pub type Pid = u32;

/// Maximum number of loaded models
pub const MAX_MODELS: usize = 64;

/// Maximum tensor size (1GB)
pub const MAX_TENSOR_SIZE: usize = 1073741824;

/// Data type for tensors
#[derive(Debug, Clone, Copy, PartialEq, Eq, Structural)]
pub enum DType {
    Float32,
    Float64,
    Int32,
    Int64,
    UInt8,
    Bool,
    Float16,
    BFloat16,
}

/// The size in bytes of one element of a type.
pub open spec fn dtype_size(d: DType) -> nat {
    match d {
        DType::Float32 | DType::Int32 => 4,
        DType::Float64 | DType::Int64 => 8,
        DType::UInt8 | DType::Bool => 1,
        DType::Float16 | DType::BFloat16 => 2,
    }
}

impl DType {
    /// The size in bytes of one element
    pub fn size(&self) -> (r: usize)
        ensures
            r == dtype_size(*self),
    {
        match self {
            DType::Float32 | DType::Int32 => 4,
            DType::Float64 | DType::Int64 => 8,
            DType::UInt8 | DType::Bool => 1,
            DType::Float16 | DType::BFloat16 => 2,
        }
    }
}

/// Loaded AI model
pub struct AiModel {
    pub id: u64,
    pub name: [u8; 64],
    pub size: usize,
    /// Address of the model data
    pub data: usize,
}

/// Shared tensor for zero-copy sharing
pub struct SharedTensor {
    pub id: u64,
    pub dtype: DType,
    pub shape: Vec<usize>,
    /// Address of the tensor data (0 until memory is attached)
    pub data: usize,
    pub size: usize,
    pub owner: Pid,
    pub shared_with: Vec<Pid>,
}

/// What a shared tensor holds.
pub struct TensorView {
    pub id: u64,
    pub dtype: DType,
    pub shape: Seq<usize>,
    pub data: usize,
    pub size: usize,
    pub owner: Pid,
    pub shared_with: Seq<Pid>,
}

impl View for SharedTensor {
    type V = TensorView;

    open spec fn view(&self) -> TensorView {
        TensorView {
            id: self.id,
            dtype: self.dtype,
            shape: self.shape@,
            data: self.data,
            size: self.size,
            owner: self.owner,
            shared_with: self.shared_with@,
        }
    }
}

/// Kernel AI engine
pub struct AiEngine {
    /// Loaded models
    models: BTreeMap<u64, AiModel>,
    /// Next model ID
    next_model_id: u64,
    /// Shared tensors
    tensors: BTreeMap<u64, SharedTensor>,
    /// Next tensor ID
    next_tensor_id: u64,
    /// Engine initialized
    initialized: bool,
}

/// What the engine holds.
pub struct AiEngineView {
    pub models: Set<u64>,
    pub next_model_id: u64,
    pub tensors: Map<u64, TensorView>,
    pub next_tensor_id: u64,
    pub initialized: bool,
}

impl View for AiEngine {
    type V = AiEngineView;

    closed spec fn view(&self) -> AiEngineView {
        AiEngineView {
            models: self.models@.dom(),
            next_model_id: self.next_model_id,
            tensors: Map::new(|k: u64| self.tensors@.contains_key(k), |k: u64| self.tensors@[k]@),
            next_tensor_id: self.next_tensor_id,
            initialized: self.initialized,
        }
    }
}

/// The product of the extents of a shape.
pub open spec fn shape_product(s: Seq<usize>) -> nat
    decreases s.len(),
{
    if s.len() == 0 { 1 } else { shape_product(s.drop_last()) * (s.last() as nat) }
}

/// Whether computing a tensor's byte size stays in range: every partial
/// product of the extents, and the element count times the element size.
pub open spec fn tensor_size_fits(dtype: DType, shape: Seq<usize>) -> bool {
    &&& forall|k: int| 0 <= k <= shape.len() ==> #[trigger] shape_product(shape.subrange(0, k)) <= usize::MAX
    &&& shape_product(shape) * dtype_size(dtype) <= usize::MAX
}

/// The byte size of a tensor.
fn tensor_size(dtype: DType, shape: &[usize]) -> (r: usize)
    requires
        tensor_size_fits(dtype, shape@),
    ensures
        r == shape_product(shape@) * dtype_size(dtype),
{
    let mut acc: usize = 1;
    let mut i: usize = 0;
    assert(shape@.subrange(0, 0) =~= Seq::<usize>::empty());
    while i < shape.len()
        invariant
            i <= shape@.len(),
            tensor_size_fits(dtype, shape@),
            acc == shape_product(shape@.subrange(0, i as int)),
        decreases shape@.len() - i,
    {
        assert(shape@.subrange(0, i + 1).drop_last() =~= shape@.subrange(0, i as int));
        assert(shape_product(shape@.subrange(0, i + 1)) <= usize::MAX);
        acc = acc * shape[i];
        i = i + 1;
    }
    assert(shape@.subrange(0, shape@.len() as int) =~= shape@);
    acc * dtype.size()
}

impl AiEngine {
    /// A fresh engine: no models, no tensors, not yet initialized
    pub fn new() -> (r: Self)
        ensures
            r@ == (AiEngineView {
                models: Set::empty(),
                next_model_id: 1,
                tensors: Map::empty(),
                next_tensor_id: 1,
                initialized: false,
            }),
    {
        let r = AiEngine {
            models: BTreeMap::new(),
            next_model_id: 1,
            tensors: BTreeMap::new(),
            next_tensor_id: 1,
            initialized: false,
        };
        assert(r@.models =~= Set::<u64>::empty());
        assert(r@.tensors =~= Map::<u64, TensorView>::empty());
        r
    }

    /// Load an AI model: it is held under a fresh model ID, unless the
    /// engine is full
    pub fn load_model(&mut self, data: &[u8]) -> (r: Option<u64>)
        requires
            old(self)@.models.len() < MAX_MODELS ==> old(self)@.next_model_id < u64::MAX,
        ensures
            old(self)@.models.len() >= MAX_MODELS ==> r is None && final(self)@ == old(self)@,
            old(self)@.models.len() < MAX_MODELS ==> r == Some(old(self)@.next_model_id)
                && final(self)@ == engine_loaded(old(self)@),
    {
        if self.models.len() >= MAX_MODELS {
            return None;
        }
        let id = self.next_model_id;
        self.next_model_id = self.next_model_id + 1;
        let model = AiModel { id, name: [0u8; 64], size: data.len(), data: 0 };
        self.models.insert(id, model);
        assert(self@.models =~= old(self)@.models.insert(id));
        assert(self@.tensors =~= old(self)@.tensors);
        Some(id)
    }

    /// Unload an AI model; whether it was loaded
    pub fn unload_model(&mut self, id: u64) -> (r: bool)
        ensures
            r == old(self)@.models.contains(id),
            final(self)@ == engine_unloaded(old(self)@, id),
    {
        let r = self.models.remove(&id).is_some();
        assert(self@.models =~= old(self)@.models.remove(id));
        assert(self@.tensors =~= old(self)@.tensors);
        r
    }

    /// Run inference (no inference backend: nothing comes out)
    pub fn infer(&self, model_id: u64, input: &[u8]) -> (r: Option<Vec<u8>>)
        ensures
            r is None,
    {
        None
    }

    /// Allocate a shared tensor: refused past the size limit, otherwise
    /// registered under a fresh ID for its owner
    pub fn alloc_tensor(&mut self, dtype: DType, shape: &[usize], owner: Pid) -> (r: Option<u64>)
        requires
            tensor_size_fits(dtype, shape@),
            old(self)@.next_tensor_id < u64::MAX,
        ensures
            shape_product(shape@) * dtype_size(dtype) > MAX_TENSOR_SIZE ==> r is None && final(self)@ == old(self)@,
            shape_product(shape@) * dtype_size(dtype) <= MAX_TENSOR_SIZE ==> r == Some(old(self)@.next_tensor_id)
                && final(self)@ == (AiEngineView {
                    next_tensor_id: (old(self)@.next_tensor_id + 1) as u64,
                    tensors: old(self)@.tensors.insert(old(self)@.next_tensor_id, TensorView {
                        id: old(self)@.next_tensor_id,
                        dtype,
                        shape: shape@,
                        data: 0,
                        size: (shape_product(shape@) * dtype_size(dtype)) as usize,
                        owner,
                        shared_with: Seq::empty(),
                    }),
                    ..old(self)@
                }),
    {
        let size = tensor_size(dtype, shape);
        if size > MAX_TENSOR_SIZE {
            return None;
        }
        let id = self.next_tensor_id;
        self.next_tensor_id = self.next_tensor_id + 1;
        let tensor = SharedTensor {
            id,
            dtype,
            shape: slice_to_vec(shape),
            data: 0,
            size,
            owner,
            shared_with: Vec::new(),
        };
        self.tensors.insert(id, tensor);
        assert(self@.tensors =~= old(self)@.tensors.insert(id, tensor@));
        assert(self@.models =~= old(self)@.models);
        Some(id)
    }

    /// Free a shared tensor; whether it existed
    pub fn free_tensor(&mut self, id: u64) -> (r: bool)
        ensures
            r == old(self)@.tensors.contains_key(id),
            final(self)@ == (AiEngineView { tensors: old(self)@.tensors.remove(id), ..old(self)@ }),
    {
        let r = self.tensors.remove(&id).is_some();
        assert(self@.tensors =~= old(self)@.tensors.remove(id));
        assert(self@.models =~= old(self)@.models);
        r
    }

    /// Share tensor with another process; whether the tensor exists
    pub fn share_tensor(&mut self, id: u64, target: Pid) -> (r: bool)
        ensures
            r == old(self)@.tensors.contains_key(id),
            r ==> final(self)@ == (AiEngineView {
                tensors: old(self)@.tensors.insert(id, TensorView {
                    shared_with: old(self)@.tensors[id].shared_with.push(target),
                    ..old(self)@.tensors[id]
                }),
                ..old(self)@
            }),
            !r ==> final(self)@ == old(self)@,
    {
        match self.tensors.remove(&id) {
            Some(mut tensor) => {
                let ghost before = tensor@;
                tensor.shared_with.push(target);
                self.tensors.insert(id, tensor);
                assert(self@.tensors =~= old(self)@.tensors.insert(id, TensorView { shared_with: before.shared_with.push(target), ..before }));
                assert(self@.models =~= old(self)@.models);
                true
            },
            None => {
                assert(self@.tensors =~= old(self)@.tensors);
                assert(self@.models =~= old(self)@.models);
                false
            },
        }
    }
}

/// The engine after loading a model under the next model ID.
pub open spec fn engine_loaded(v: AiEngineView) -> AiEngineView {
    AiEngineView { models: v.models.insert(v.next_model_id), next_model_id: (v.next_model_id + 1) as u64, ..v }
}

/// The engine after unloading model `id`.
pub open spec fn engine_unloaded(v: AiEngineView, id: u64) -> AiEngineView {
    AiEngineView { models: v.models.remove(id), ..v }
}

/// A model that was loaded can be unloaded once: right after a load, the
/// engine holds the model under the ID the load gave, so the first unload
/// of that ID finds it and the second does not; tensors are untouched.
pub proof fn lemma_load_then_unload(v: AiEngineView)
    ensures
        ({
            let id = v.next_model_id;
            let once = engine_unloaded(engine_loaded(v), id);
            &&& engine_loaded(v).models.contains(id)
            &&& !once.models.contains(id)
            &&& engine_unloaded(once, id) == once
            &&& once.tensors == v.tensors
        }),
{
    let once = engine_unloaded(engine_loaded(v), v.next_model_id);
    assert(once.models.remove(v.next_model_id) =~= once.models);
}

/// Initialize AI subsystem
pub fn init(engine: &mut AiEngine)
    ensures
        final(engine)@ == (AiEngineView { initialized: true, ..old(engine)@ }),
{
    engine.initialized = true;
    assert(engine@.tensors =~= old(engine)@.tensors);
}

/// Load an AI model
pub fn load_model(engine: &mut AiEngine, data: &[u8]) -> (r: Option<u64>)
    requires
        old(engine)@.models.len() < MAX_MODELS ==> old(engine)@.next_model_id < u64::MAX,
    ensures
        old(engine)@.models.len() >= MAX_MODELS ==> r is None && final(engine)@ == old(engine)@,
        old(engine)@.models.len() < MAX_MODELS ==> r == Some(old(engine)@.next_model_id)
            && final(engine)@ == engine_loaded(old(engine)@),
{
    engine.load_model(data)
}

/// Unload an AI model
pub fn unload_model(engine: &mut AiEngine, id: u64) -> (r: bool)
    ensures
        r == old(engine)@.models.contains(id),
        final(engine)@ == engine_unloaded(old(engine)@, id),
{
    engine.unload_model(id)
}

/// Run inference
pub fn infer(engine: &AiEngine, model_id: u64, input: &[u8]) -> (r: Option<Vec<u8>>)
    ensures
        r is None,
{
    engine.infer(model_id, input)
}

/// Allocate shared tensor
pub fn alloc_tensor(engine: &mut AiEngine, dtype: DType, shape: &[usize], owner: Pid) -> (r: Option<u64>)
    requires
        tensor_size_fits(dtype, shape@),
        old(engine)@.next_tensor_id < u64::MAX,
    ensures
        shape_product(shape@) * dtype_size(dtype) > MAX_TENSOR_SIZE ==> r is None && final(engine)@ == old(engine)@,
        shape_product(shape@) * dtype_size(dtype) <= MAX_TENSOR_SIZE ==> r == Some(old(engine)@.next_tensor_id)
            && final(engine)@.tensors.contains_key(old(engine)@.next_tensor_id)
            && final(engine)@.tensors[old(engine)@.next_tensor_id].shape == shape@
            && final(engine)@.tensors[old(engine)@.next_tensor_id].owner == owner
            && final(engine)@.next_tensor_id == old(engine)@.next_tensor_id + 1,
{
    engine.alloc_tensor(dtype, shape, owner)
}

/// Free shared tensor
pub fn free_tensor(engine: &mut AiEngine, id: u64) -> (r: bool)
    ensures
        r == old(engine)@.tensors.contains_key(id),
        final(engine)@ == (AiEngineView { tensors: old(engine)@.tensors.remove(id), ..old(engine)@ }),
{
    engine.free_tensor(id)
}

/// Share tensor with another process
pub fn share_tensor(engine: &mut AiEngine, id: u64, target: Pid) -> (r: bool)
    ensures
        r == old(engine)@.tensors.contains_key(id),
        r ==> final(engine)@.tensors[id].shared_with == old(engine)@.tensors[id].shared_with.push(target),
        !r ==> final(engine)@ == old(engine)@,
{
    engine.share_tensor(id, target)
}

/// AI query (natural language to kernel action): no language model, so
/// no action
pub fn query(prompt: &[u8]) -> (r: Option<Vec<u8>>)
    ensures
        r is None,
{
    None
}

} // verus!
