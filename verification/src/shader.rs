use std::sync::Arc;

use vstd::prelude::*;

use crate::spirv::{
    entry_model_from, interface_locations_of, interface_locations_spec, is_reflectable_spirv, spirv_reflectable,
    STORAGE_INPUT,
    STORAGE_OUTPUT,
};

verus! {

broadcast use {vstd::seq_lib::group_to_multiset_ensures, vstd::seq::group_seq_axioms};

/// The `location` that reflection reports for a variable that has none
/// (built-in inputs and outputs such as `gl_Position`).
pub const NO_LOCATION: u32 = 0xffff_ffff;

/// A pipeline stage that a shader module can be bound to.
#[derive(Clone, Copy, Debug, PartialEq, Eq, Structural, Hash)]
pub enum ShaderStage {
    Vertex,
    TessControl,
    TessEval,
    Geometry,
    Fragment,
    Compute,
}

/// The stage for a SPIR-V execution model number; `None` for the models
/// (kernels, ray tracing, mesh shading) that have no such stage.
pub open spec fn stage_of_model(model: u32) -> Option<ShaderStage> {
    if model == 0 {
        Some(ShaderStage::Vertex)
    } else if model == 1 {
        Some(ShaderStage::TessControl)
    } else if model == 2 {
        Some(ShaderStage::TessEval)
    } else if model == 3 {
        Some(ShaderStage::Geometry)
    } else if model == 4 {
        Some(ShaderStage::Fragment)
    } else if model == 5 {
        Some(ShaderStage::Compute)
    } else {
        None
    }
}

/// The `VkShaderStageFlagBits` bit of a stage.
pub open spec fn stage_flag(stage: ShaderStage) -> u32 {
    match stage {
        ShaderStage::Vertex => 0x1,
        ShaderStage::TessControl => 0x2,
        ShaderStage::TessEval => 0x4,
        ShaderStage::Geometry => 0x8,
        ShaderStage::Fragment => 0x10,
        ShaderStage::Compute => 0x20,
    }
}

/// Number of shader stages.
pub const SHADER_STAGE_COUNT: usize = 6;

/// The stage's position in pipeline order.
pub open spec fn stage_index(stage: ShaderStage) -> int {
    match stage {
        ShaderStage::Vertex => 0,
        ShaderStage::TessControl => 1,
        ShaderStage::TessEval => 2,
        ShaderStage::Geometry => 3,
        ShaderStage::Fragment => 4,
        ShaderStage::Compute => 5,
    }
}

/// The stage at position `i` of pipeline order.
pub open spec fn stage_at(i: int) -> ShaderStage {
    if i == 0 {
        ShaderStage::Vertex
    } else if i == 1 {
        ShaderStage::TessControl
    } else if i == 2 {
        ShaderStage::TessEval
    } else if i == 3 {
        ShaderStage::Geometry
    } else if i == 4 {
        ShaderStage::Fragment
    } else {
        ShaderStage::Compute
    }
}

impl ShaderStage {
    /// The stage's position in pipeline order.
    pub fn index(self) -> (r: usize)
        ensures
            r == stage_index(self),
            r < SHADER_STAGE_COUNT,
            stage_at(r as int) == self,
    {
        match self {
            ShaderStage::Vertex => 0,
            ShaderStage::TessControl => 1,
            ShaderStage::TessEval => 2,
            ShaderStage::Geometry => 3,
            ShaderStage::Fragment => 4,
            ShaderStage::Compute => 5,
        }
    }

    /// The stage at position `i` of pipeline order.
    pub fn from_index(i: usize) -> (r: ShaderStage)
        requires
            i < SHADER_STAGE_COUNT,
        ensures
            r == stage_at(i as int),
            stage_index(r) == i,
    {
        if i == 0 {
            ShaderStage::Vertex
        } else if i == 1 {
            ShaderStage::TessControl
        } else if i == 2 {
            ShaderStage::TessEval
        } else if i == 3 {
            ShaderStage::Geometry
        } else if i == 4 {
            ShaderStage::Fragment
        } else {
            ShaderStage::Compute
        }
    }

    /// The stage of a SPIR-V execution model.
    pub fn from_execution_model(model: u32) -> (r: Option<ShaderStage>)
        ensures
            r == stage_of_model(model),
    {
        if model == 0 {
            Some(ShaderStage::Vertex)
        } else if model == 1 {
            Some(ShaderStage::TessControl)
        } else if model == 2 {
            Some(ShaderStage::TessEval)
        } else if model == 3 {
            Some(ShaderStage::Geometry)
        } else if model == 4 {
            Some(ShaderStage::Fragment)
        } else if model == 5 {
            Some(ShaderStage::Compute)
        } else {
            None
        }
    }

    /// The stage as a `VkShaderStageFlags` value.
    pub fn vk_flags(self) -> (r: u32)
        ensures
            r == stage_flag(self),
    {
        match self {
            ShaderStage::Vertex => 0x1,
            ShaderStage::TessControl => 0x2,
            ShaderStage::TessEval => 0x4,
            ShaderStage::Geometry => 0x8,
            ShaderStage::Fragment => 0x10,
            ShaderStage::Compute => 0x20,
        }
    }
}

pub open spec fn has_location(l: u32) -> bool {
    l != NO_LOCATION
}

/// The locations among `raw` that are real locations, in their order.
pub open spec fn located(raw: Seq<u32>) -> Seq<u32> {
    raw.filter(|l: u32| has_location(l))
}

pub open spec fn ascending(s: Seq<u32>) -> bool {
    forall|i: int, j: int| 0 <= i <= j < s.len() ==> s[i] <= s[j]
}

/// `r` is the interface of a shader with raw variable locations `raw`:
/// the real locations, each as often as it occurs, in ascending order.
pub open spec fn is_interface(r: Seq<u32>, raw: Seq<u32>) -> bool {
    ascending(r) && r.to_multiset() == located(raw).to_multiset()
}

/// Sorts the real locations out of a list of interface variable locations.
pub fn interface_locations(raw: &Vec<u32>) -> (r: Vec<u32>)
    ensures
        is_interface(r@, raw@),
{
    let mut r: Vec<u32> = Vec::new();
    let mut i: usize = 0;
    while i < raw.len()
        invariant
            i <= raw@.len(),
            ascending(r@),
            r@.to_multiset() == located(raw@.take(i as int)).to_multiset(),
        decreases raw@.len() - i,
    {
        let x = raw[i];
        proof {
            assert(raw@.take(i as int + 1) == raw@.take(i as int).push(x));
            raw@.take(i as int).lemma_filter_push(x, |l: u32| has_location(l));
        }
        if x != NO_LOCATION {
            let mut p: usize = 0;
            while p < r.len() && r[p] <= x
                invariant
                    p <= r@.len(),
                    forall|j: int| 0 <= j < p ==> r@[j] <= x,
                decreases r@.len() - p,
            {
                p = p + 1;
            }
            let ghost before = r@;
            r.insert(p, x);
            proof {
                assert(r@ == before.insert(p as int, x));
                assert forall|a: int, b: int| 0 <= a <= b < r@.len() implies r@[a] <= r@[b] by {
                    if b < p {
                    } else if b == p {
                        assert(r@[b] == x);
                    } else if a < p {
                        assert(r@[b] == before[b - 1]);
                        assert(before[b - 1] > x || b - 1 >= p);
                        if p < before.len() {
                            assert(before[p as int] > x);
                            assert(before[p as int] <= before[b - 1]);
                        }
                    } else if a == p {
                        assert(before[p as int] > x);
                        assert(before[p as int] <= before[b - 1]);
                    } else {
                        assert(before[a - 1] <= before[b - 1]);
                    }
                }
            }
        }
        i = i + 1;
    }
    proof {
        assert(raw@.take(raw@.len() as int) == raw@);
    }
    r
}

/// Two ascending lists with the same elements, counted with
/// multiplicity, are the same list.
proof fn lemma_ascending_unique(a: Seq<u32>, b: Seq<u32>)
    requires
        ascending(a),
        ascending(b),
        a.to_multiset() == b.to_multiset(),
    ensures
        a == b,
    decreases a.len(),
{
    a.to_multiset_ensures();
    b.to_multiset_ensures();
    if a.len() == 0 {
        assert(b.len() == 0);
        assert(a =~= b);
    } else {
        assert(b.len() == a.len());
        // The first element of each is the least element of the other.
        assert(a.to_multiset().count(a[0]) > 0);
        assert(b.contains(a[0]));
        let j = choose|j: int| 0 <= j < b.len() && b[j] == a[0];
        assert(b[0] <= b[j]);
        assert(a.to_multiset().count(b[0]) > 0);
        assert(a.contains(b[0]));
        let k = choose|k: int| 0 <= k < a.len() && a[k] == b[0];
        assert(a[0] <= a[k]);
        assert(a[0] == b[0]);
        let ra = a.drop_first();
        let rb = b.drop_first();
        assert(a.remove(0) =~= ra);
        assert(b.remove(0) =~= rb);
        assert(ra.to_multiset() == a.to_multiset().remove(a[0]));
        assert(rb.to_multiset() == b.to_multiset().remove(b[0]));
        lemma_ascending_unique(ra, rb);
        assert(a =~= b) by {
            assert forall|i: int| 0 <= i < a.len() implies a[i] == b[i] by {
                if i > 0 {
                    assert(a[i] == ra[i - 1]);
                    assert(b[i] == rb[i - 1]);
                }
            }
        }
    }
}

/// The interface of a list of raw locations is determined by it: any two
/// lists that are its interface are equal.
pub proof fn law_interface_determined(r1: Seq<u32>, r2: Seq<u32>, raw: Seq<u32>)
    requires
        is_interface(r1, raw),
        is_interface(r2, raw),
    ensures
        r1 == r2,
{
    lemma_ascending_unique(r1, r2);
}

/// What reflection of a shader gives: its stage and the locations of its
/// inputs and outputs.
#[derive(Debug)]
pub struct ShaderInterface {
    pub stage: ShaderStage,
    pub inputs: Vec<u32>,
    pub outputs: Vec<u32>,
}

/// The interface of a shader from what reflection reported: the execution
/// model and the raw locations of the input and output variables. `None`
/// where the model has no pipeline stage or a variable list was refused.
pub open spec fn interface_from(
    model: u32,
    inputs: Option<Seq<u32>>,
    outputs: Option<Seq<u32>>,
    r: Option<ShaderInterface>,
) -> bool {
    match r {
        None => stage_of_model(model) is None || inputs is None || outputs is None,
        Some(s) => {
            &&& stage_of_model(model) == Some(s.stage)
            &&& inputs matches Some(raw_in) && is_interface(s.inputs@, raw_in)
            &&& outputs matches Some(raw_out) && is_interface(s.outputs@, raw_out)
        },
    }
}

pub open spec fn seq_of(v: Option<Vec<u32>>) -> Option<Seq<u32>> {
    match v {
        Some(v) => Some(v@),
        None => None,
    }
}

/// Builds a shader's interface from the reflection results.
pub fn build_interface(model: u32, inputs: Option<Vec<u32>>, outputs: Option<Vec<u32>>) -> (r:
    Option<ShaderInterface>)
    ensures
        interface_from(model, seq_of(inputs), seq_of(outputs), r),
{
    let stage = match ShaderStage::from_execution_model(model) {
        Some(s) => s,
        None => return None,
    };
    let raw_in = match inputs {
        Some(v) => v,
        None => return None,
    };
    let raw_out = match outputs {
        Some(v) => v,
        None => return None,
    };
    let ins = interface_locations(&raw_in);
    let outs = interface_locations(&raw_out);
    Some(ShaderInterface { stage, inputs: ins, outputs: outs })
}

/// A SPIR-V module parsed by `spirv_reflect`, kept with the words it was
/// parsed from.
pub struct SpirvModule {
    code: Vec<u32>,
    module: spirv_reflect::ShaderModule,
}

#[verifier::external_type_specification]
#[verifier::external_body]
pub struct ExShaderModule(spirv_reflect::ShaderModule);

impl View for SpirvModule {
    type V = Seq<u32>;

    closed spec fn view(&self) -> Seq<u32> {
        self.code@
    }
}

/// Whether `spirv_reflect` accepts `code` as a shader module.
pub uninterp spec fn spirv_loads(code: Seq<u32>) -> bool;

/// The execution models that `spirv_headers` names.
pub open spec fn known_execution_model(model: u32) -> bool {
    model <= 6 || model == 5267 || model == 5268 || (5313 <= model && model <= 5318)
}

/// The execution model number that `spirv_reflect` reports for `code`:
/// that of the first entry point, 0 (the vertex model) where there is no
/// entry point or the model is not one `spirv_headers` names.
pub open spec fn spirv_execution_model(code: Seq<u32>) -> u32 {
    let model = entry_model_from(code, 5);
    if known_execution_model(model) {
        model
    } else {
        0
    }
}

/// The source file name recorded in `code`, empty where there is none.
pub uninterp spec fn spirv_source_file(code: Seq<u32>) -> Seq<char>;

impl SpirvModule {
    /// Parses `code` with `spirv_reflect::ShaderModule::load_u32_data`.
    /// Trusted: the module is returned exactly when the parse succeeds,
    /// and it keeps `code`. The code must be reflectable: there the
    /// bundled C parser reads only within the code, its sorts compare
    /// consistently, its type walks end, and none of its assertions
    /// fails; on other code an assertion can stop the process, or a zero
    /// word count keeps it from ending.
    #[verifier::external_body]
    fn load(code: Vec<u32>) -> (r: Option<SpirvModule>)
        requires
            spirv_reflectable(code@),
        ensures
            r is Some <==> spirv_loads(code@),
            r matches Some(m) ==> m@ == code@,
    {
        match spirv_reflect::ShaderModule::load_u32_data(&code) {
            Ok(module) => Some(SpirvModule { code, module }),
            Err(_) => None,
        }
    }

    /// `ShaderModule::get_spirv_execution_model`, as its SPIR-V number.
    /// Trusted: the C parser takes the model word of the first entry
    /// point it meets walking the instructions from word 5 (0 where there
    /// is none, the module being zeroed first), and the crate turns a
    /// number that `spirv_headers::ExecutionModel` does not name into the
    /// vertex model.
    #[verifier::external_body]
    fn execution_model(&self) -> (r: u32)
        ensures
            r == spirv_execution_model(self@),
    {
        self.module.get_spirv_execution_model() as u32
    }

    /// `ShaderModule::get_source_file`. Trusted: the name depends on the
    /// code alone.
    #[verifier::external_body]
    fn source_file(&self) -> (r: String)
        ensures
            r@ == spirv_source_file(self@),
    {
        self.module.get_source_file()
    }

    /// The words the module was parsed from.
    fn into_code(self) -> (r: Vec<u32>)
        ensures
            r@ == self@,
    {
        self.code
    }
}

/// Whether a shader can be made from `code`: it is reflectable,
/// reflection accepts it, and its execution model has a pipeline stage.
pub open spec fn shader_reflects(code: Seq<u32>) -> bool {
    &&& spirv_reflectable(code)
    &&& spirv_loads(code)
    &&& stage_of_model(spirv_execution_model(code)) is Some
}

/// A shader module: its code and what reflection found in it.
#[derive(Debug)]
pub struct Shader {
    code: Vec<u32>,
    stage: ShaderStage,
    source_file: String,
    inputs: Vec<u32>,
    outputs: Vec<u32>,
}

impl Shader {
    pub closed spec fn code_spec(&self) -> Seq<u32> {
        self.code@
    }

    pub closed spec fn stage_spec(&self) -> ShaderStage {
        self.stage
    }

    pub closed spec fn source_file_spec(&self) -> Seq<char> {
        self.source_file@
    }

    pub closed spec fn inputs_spec(&self) -> Seq<u32> {
        self.inputs@
    }

    pub closed spec fn outputs_spec(&self) -> Seq<u32> {
        self.outputs@
    }

    /// Reflects `code`. `None` where the code is not reflectable, where
    /// reflection refuses it, or where its execution model has no
    /// pipeline stage. The inputs and outputs are the real locations of
    /// the input and output variables of the first entry point, in
    /// ascending order. They are read from the code by
    /// `interface_locations_of`: the crate's own variable enumeration
    /// converts each variable's member list with `slice::from_raw_parts`
    /// on the pointer the C parser leaves null for a variable without
    /// members, such as a plain vector, which aborts the process.
    pub fn new(code: Vec<u32>) -> (r: Option<Shader>)
        ensures
            r is Some <==> shader_reflects(code@),
            r matches Some(s) ==> {
                &&& s.code_spec() == code@
                &&& stage_of_model(spirv_execution_model(code@)) == Some(s.stage_spec())
                &&& is_interface(s.inputs_spec(), interface_locations_spec(code@, STORAGE_INPUT))
                &&& is_interface(s.outputs_spec(), interface_locations_spec(code@, STORAGE_OUTPUT))
                &&& s.source_file_spec() == spirv_source_file(code@)
            },
    {
        if !is_reflectable_spirv(code.as_slice()) {
            return None;
        }
        let inputs = interface_locations_of(code.as_slice(), STORAGE_INPUT);
        let outputs = interface_locations_of(code.as_slice(), STORAGE_OUTPUT);
        let module = match SpirvModule::load(code) {
            Some(m) => m,
            None => return None,
        };
        let model = module.execution_model();
        let interface = match build_interface(model, Some(inputs), Some(outputs)) {
            Some(i) => i,
            None => return None,
        };
        let source_file = module.source_file();
        let code = module.into_code();
        Some(
            Shader {
                code,
                stage: interface.stage,
                source_file,
                inputs: interface.inputs,
                outputs: interface.outputs,
            },
        )
    }

    pub fn code(&self) -> (r: &[u32])
        ensures
            r@ == self.code_spec(),
    {
        self.code.as_slice()
    }

    pub fn stage(&self) -> (r: ShaderStage)
        ensures
            r == self.stage_spec(),
    {
        self.stage
    }

    /// Locations of the stage's inputs, ascending.
    pub fn inputs(&self) -> (r: &[u32])
        ensures
            r@ == self.inputs_spec(),
    {
        self.inputs.as_slice()
    }

    /// Locations of the stage's outputs, ascending.
    pub fn outputs(&self) -> (r: &[u32])
        ensures
            r@ == self.outputs_spec(),
    {
        self.outputs.as_slice()
    }

    /// The source file recorded in the module.
    pub fn name(&self) -> (r: Option<&str>)
        ensures
            r matches Some(n) && n@ == self.source_file_spec(),
    {
        Some(self.source_file.as_str())
    }
}

/// One specialization constant: its id and where its value lies in the
/// data block.
#[derive(Clone, Copy, Debug, PartialEq, Eq, Structural)]
pub struct SpecializationMapEntry {
    pub constant_id: u32,
    pub offset: u32,
    pub size: usize,
}

/// A choice of shader plus specialization constant values.
#[derive(Debug)]
pub struct ShaderSpec {
    shader: Arc<Shader>,
    spec_map: Vec<SpecializationMapEntry>,
    data: Vec<u8>,
}

/// The entries lie end to end over `data_len` bytes of data, in the
/// order they were set.
pub open spec fn entries_tile(map: Seq<SpecializationMapEntry>, data_len: int) -> bool {
    &&& map.len() == 0 ==> data_len == 0
    &&& map.len() > 0 ==> map[0].offset == 0 && map.last().offset + map.last().size == data_len
    &&& forall|i: int| 0 <= i < map.len() - 1 ==> #[trigger] map[i].offset + map[i].size == map[i + 1].offset
}

impl ShaderSpec {
    pub closed spec fn shader_spec(&self) -> Shader {
        *self.shader
    }

    pub closed spec fn map_spec(&self) -> Seq<SpecializationMapEntry> {
        self.spec_map@
    }

    pub closed spec fn data_spec(&self) -> Seq<u8> {
        self.data@
    }

    /// The shader with no specialization constants set.
    pub fn new(shader: Arc<Shader>) -> (r: Self)
        ensures
            r.shader_spec() == *shader,
            r.map_spec() == Seq::<SpecializationMapEntry>::empty(),
            r.data_spec() == Seq::<u8>::empty(),
            entries_tile(r.map_spec(), r.data_spec().len() as int),
    {
        ShaderSpec { shader, spec_map: Vec::new(), data: Vec::new() }
    }

    pub fn shader(&self) -> (r: &Arc<Shader>)
        ensures
            **r == self.shader_spec(),
    {
        &self.shader
    }

    /// The map entries, in the order the constants were set.
    pub fn map_entries(&self) -> (r: &[SpecializationMapEntry])
        ensures
            r@ == self.map_spec(),
    {
        self.spec_map.as_slice()
    }

    /// The packed constant values.
    pub fn data(&self) -> (r: &[u8])
        ensures
            r@ == self.data_spec(),
    {
        self.data.as_slice()
    }

    /// Sets constant `id` to the value whose bytes are `bytes`: appends a
    /// map entry that points at the end of the data, then the bytes.
    pub fn set(&mut self, id: u32, bytes: &[u8])
        requires
            old(self).data_spec().len() + bytes@.len() <= usize::MAX,
        ensures
            final(self).shader_spec() == old(self).shader_spec(),
            final(self).map_spec() == old(self).map_spec().push(
                (SpecializationMapEntry {
                    constant_id: id,
                    offset: old(self).data_spec().len() as u32,
                    size: bytes@.len() as usize,
                }),
            ),
            final(self).data_spec() == old(self).data_spec() + bytes@,
            entries_tile(old(self).map_spec(), old(self).data_spec().len() as int)
                && final(self).data_spec().len() <= u32::MAX ==> entries_tile(
                final(self).map_spec(),
                final(self).data_spec().len() as int,
            ),
    {
        let offset = self.data.len() as u32;
        self.spec_map.push(SpecializationMapEntry { constant_id: id, offset, size: bytes.len() });
        let ghost old_data = self.data@;
        let ghost map = self.spec_map@;
        let ghost shader = self.shader;
        let mut k: usize = 0;
        while k < bytes.len()
            invariant
                k <= bytes@.len(),
                self.spec_map@ == map,
                self.shader == shader,
                self.data@ == old_data + bytes@.take(k as int),
            decreases bytes@.len() - k,
        {
            self.data.push(bytes[k]);
            proof {
                assert(bytes@.take(k as int + 1) == bytes@.take(k as int).push(bytes@[k as int]));
            }
            k = k + 1;
        }
        proof {
            assert(bytes@.take(bytes@.len() as int) == bytes@);
            let m0 = old(self).spec_map@;
            let m1 = self.spec_map@;
            if entries_tile(m0, old(self).data@.len() as int) && self.data@.len() <= u32::MAX {
                assert(offset == old(self).data@.len());
                assert forall|i: int| 0 <= i < m1.len() - 1 implies #[trigger] m1[i].offset + m1[i].size
                    == m1[i + 1].offset by {
                    if i < m0.len() - 1 {
                        assert(m1[i] == m0[i] && m1[i + 1] == m0[i + 1]);
                    } else {
                        assert(m1[i] == m0.last());
                    }
                }
            }
        }
    }
}

} // verus!
