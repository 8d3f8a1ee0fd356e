use vstd::prelude::*;

use crate::format::{depth_stencil, Format, SampleCount};
use crate::image::{ImageFlags, COLOR_ATTACHMENT, DEPTH_STENCIL_ATTACHMENT, INPUT_ATTACHMENT, NO_SAMPLE};

verus! {

/// Marks an attachment reference as unused.
pub const ATTACHMENT_UNUSED: u32 = 0xffff_ffff;

/// Marks a dependency endpoint outside of the render pass.
pub const SUBPASS_EXTERNAL: u32 = 0xffff_ffff;

/// Named render targets.
#[derive(Clone, Copy, Debug, PartialEq, Eq, Structural, Hash)]
pub enum Attachment {
    /// SRGB screen buffer
    Backbuffer,
    DepthStencil,
    /// HDR light buffer
    Hdr,
    Normal,
    Albedo,
}

#[derive(Clone, Copy, Debug, PartialEq, Eq, Structural, Hash)]
pub enum LoadOp {
    Load,
    Clear,
    DontCare,
}

#[derive(Clone, Copy, Debug, PartialEq, Eq, Structural, Hash)]
pub enum StoreOp {
    Store,
    DontCare,
}

/// The image layouts used by render passes.
#[derive(Clone, Copy, Debug, PartialEq, Eq, Structural, Hash)]
pub enum ImageLayout {
    Undefined,
    General,
    ColorAttachmentOptimal,
    DepthStencilAttachmentOptimal,
    DepthStencilReadOnlyOptimal,
    ShaderReadOnlyOptimal,
    TransferSrcOptimal,
    TransferDstOptimal,
    PresentSrc,
}

#[derive(Clone, Copy, Debug, PartialEq, Eq, Structural)]
pub struct AttachmentDescription {
    pub name: Attachment,
    pub format: Format,
    pub samples: SampleCount,
    // These fields follow a possibly dumb but reasonable-sounding
    // convention: if you don't specify it, you don't care about it.
    pub load_op: LoadOp,
    pub store_op: StoreOp,
    pub stencil_load_op: LoadOp,
    pub stencil_store_op: StoreOp,
    pub initial_layout: ImageLayout,
    pub final_layout: ImageLayout,
}

impl Default for AttachmentDescription {
    fn default() -> (r: Self)
        ensures
            r == (AttachmentDescription {
                name: Attachment::Backbuffer,
                format: Format::R8,
                samples: SampleCount::One,
                load_op: LoadOp::DontCare,
                store_op: StoreOp::DontCare,
                stencil_load_op: LoadOp::DontCare,
                stencil_store_op: StoreOp::DontCare,
                initial_layout: ImageLayout::Undefined,
                final_layout: ImageLayout::Undefined,
            }),
    {
        AttachmentDescription {
            name: Attachment::Backbuffer,
            format: Format::R8,
            samples: SampleCount::One,
            load_op: LoadOp::DontCare,
            store_op: StoreOp::DontCare,
            stencil_load_op: LoadOp::DontCare,
            stencil_store_op: StoreOp::DontCare,
            initial_layout: ImageLayout::Undefined,
            final_layout: ImageLayout::Undefined,
        }
    }
}

/// The attachments a subpass uses, by index into the pass's attachments.
#[derive(Clone, Debug, Default)]
pub struct SubpassDesc {
    pub input_attchs: Vec<u32>,
    pub color_attchs: Vec<u32>,
    pub resolve_attchs: Vec<u32>,
    pub preserve_attchs: Vec<u32>,
    pub depth_stencil_attch: Option<u32>,
}

#[derive(Clone, Copy, Debug, PartialEq, Eq, Structural)]
pub struct AttachmentReference {
    pub attachment: u32,
    pub layout: ImageLayout,
}

/// A subpass as the render pass records it.
#[derive(Clone, Debug)]
pub struct SubpassState {
    pub input_attchs: Vec<AttachmentReference>,
    pub color_attchs: Vec<AttachmentReference>,
    pub resolve_attchs: Vec<AttachmentReference>,
    pub preserve_attchs: Vec<u32>,
    pub depth_stencil_attch: Option<AttachmentReference>,
    pub samples: SampleCount,
}

/// The depth/stencil reference as a list of zero or one elements.
pub open spec fn opt_seq(o: Option<u32>) -> Seq<u32> {
    match o {
        Some(x) => seq![x],
        None => Seq::empty(),
    }
}

/// Sample count of a subpass: that of its first color attachment, else
/// its first input attachment, else its depth/stencil attachment, else
/// one.
pub open spec fn subpass_samples_spec(atts: Seq<AttachmentDescription>, d: SubpassDesc) -> SampleCount {
    if d.color_attchs@.len() > 0 {
        atts[d.color_attchs@[0] as int].samples
    } else if d.input_attchs@.len() > 0 {
        atts[d.input_attchs@[0] as int].samples
    } else if d.depth_stencil_attch is Some {
        atts[d.depth_stencil_attch->0 as int].samples
    } else {
        SampleCount::One
    }
}

/// References whose sample count must match the subpass's.
pub open spec fn sampled_refs(d: SubpassDesc) -> Seq<u32> {
    d.color_attchs@ + d.input_attchs@ + opt_seq(d.depth_stencil_attch)
}

/// References that must not be unused.
pub open spec fn required_refs(d: SubpassDesc) -> Seq<u32> {
    d.color_attchs@ + d.input_attchs@ + d.preserve_attchs@ + opt_seq(d.depth_stencil_attch)
}

/// All references, resolve attachments included.
pub open spec fn all_refs(d: SubpassDesc) -> Seq<u32> {
    required_refs(d) + d.resolve_attchs@
}

/// Number of times `k` occurs in `s`.
pub open spec fn occurrences(s: Seq<u32>, k: u32) -> nat
    decreases s.len(),
{
    if s.len() == 0 {
        0
    } else {
        occurrences(s.drop_last(), k) + if s.last() == k {
            1nat
        } else {
            0nat
        }
    }
}

/// The validity conditions of a subpass description.
pub open spec fn subpass_valid(atts: Seq<AttachmentDescription>, d: SubpassDesc) -> bool {
    let refs = sampled_refs(d);
    let used = all_refs(d);
    // Sample counts agree
    &&& forall|i: int| 0 <= i < refs.len() ==> (#[trigger] refs[i]) < atts.len()
    &&& forall|i: int| 0 <= i < refs.len() ==> atts[#[trigger] refs[i] as int].samples
        == subpass_samples_spec(atts, d)
    // No unused references except as resolve attachments
    &&& forall|i: int| 0 <= i < required_refs(d).len() ==> #[trigger] required_refs(d)[i] != ATTACHMENT_UNUSED
    // No attachment is used twice
    &&& forall|i: int| 0 <= i < used.len() && #[trigger] used[i] != ATTACHMENT_UNUSED ==> used[i] < atts.len()
    &&& forall|k: u32| k < atts.len() ==> #[trigger] occurrences(used, k) <= 1
    // Resolve attachments
    &&& d.resolve_attchs@.len() > 0 ==> {
        &&& d.color_attchs@.len() == d.resolve_attchs@.len()
        &&& forall|p: int|
            0 <= p < d.resolve_attchs@.len() && #[trigger] d.resolve_attchs@[p] != ATTACHMENT_UNUSED ==> {
                &&& d.resolve_attchs@[p] < atts.len()
                &&& p < atts.len()
                &&& atts[d.resolve_attchs@[p] as int].samples == SampleCount::One
                &&& atts[p].format == atts[d.resolve_attchs@[p] as int].format
            }
    }
    // Formats
    &&& forall|i: int| 0 <= i < d.color_attchs@.len() ==> !depth_stencil(
        atts[#[trigger] d.color_attchs@[i] as int].format,
    )
    &&& d.depth_stencil_attch matches Some(idx) ==> depth_stencil(atts[idx as int].format)
}

/// Formats that hold depth or stencil data.
pub open spec fn is_depth_or_stencil_format(f: Format) -> bool {
    f == Format::D16 || f == Format::D32F || f == Format::S8 || f == Format::D16_S8 || f == Format::D32F_S8
}

proof fn lemma_depth_stencil_formats(f: Format)
    ensures
        depth_stencil(f) <==> is_depth_or_stencil_format(f),
{
    assert(1u32 & (2u32 | 4u32) == 0) by (bit_vector);
    assert(2u32 & (2u32 | 4u32) != 0) by (bit_vector);
    assert(4u32 & (2u32 | 4u32) != 0) by (bit_vector);
    assert((2u32 | 4u32) & (2u32 | 4u32) != 0) by (bit_vector);
}

/// A valid subpass's depth/stencil attachment has a format with depth or
/// stencil data.
pub proof fn law_depth_attachment_format(atts: Seq<AttachmentDescription>, d: SubpassDesc)
    requires
        subpass_valid(atts, d),
        d.depth_stencil_attch is Some,
    ensures
        is_depth_or_stencil_format(atts[d.depth_stencil_attch->0 as int].format),
{
    lemma_depth_stencil_formats(atts[d.depth_stencil_attch->0 as int].format);
}

/// A subpass that uses nothing but a depth/stencil attachment is valid
/// exactly when that attachment exists and its format holds depth or
/// stencil data, depth alone, stencil alone, or both.
pub proof fn law_depth_only_subpass(atts: Seq<AttachmentDescription>, d: SubpassDesc, idx: u32)
    requires
        d.input_attchs@.len() == 0,
        d.color_attchs@.len() == 0,
        d.resolve_attchs@.len() == 0,
        d.preserve_attchs@.len() == 0,
        d.depth_stencil_attch == Some(idx),
        idx < atts.len(),
        idx != ATTACHMENT_UNUSED,
    ensures
        subpass_valid(atts, d) <==> is_depth_or_stencil_format(atts[idx as int].format),
{
    lemma_depth_stencil_formats(atts[idx as int].format);
    assert(sampled_refs(d) =~= seq![idx]);
    assert(required_refs(d) =~= seq![idx]);
    assert(all_refs(d) =~= seq![idx]);
    let used = all_refs(d);
    assert(used.drop_last() =~= Seq::<u32>::empty());
    assert forall|k: u32| k < atts.len() implies #[trigger] occurrences(used, k) <= 1 by {
        assert(occurrences(used.drop_last(), k) == 0);
    }
    assert(subpass_samples_spec(atts, d) == atts[idx as int].samples);
}

/// A valid subpass's color attachments have color formats: none holds
/// depth or stencil data.
pub proof fn law_color_attachment_formats(atts: Seq<AttachmentDescription>, d: SubpassDesc, i: int)
    requires
        subpass_valid(atts, d),
        0 <= i < d.color_attchs@.len(),
    ensures
        !is_depth_or_stencil_format(atts[d.color_attchs@[i] as int].format),
{
    lemma_depth_stencil_formats(atts[d.color_attchs@[i] as int].format);
}

/// A subpass that uses nothing but one color attachment is valid exactly
/// when that attachment exists and its format holds no depth or stencil
/// data.
pub proof fn law_color_only_subpass(atts: Seq<AttachmentDescription>, d: SubpassDesc, idx: u32)
    requires
        d.input_attchs@.len() == 0,
        d.color_attchs@ == seq![idx],
        d.resolve_attchs@.len() == 0,
        d.preserve_attchs@.len() == 0,
        d.depth_stencil_attch is None,
        idx < atts.len(),
        idx != ATTACHMENT_UNUSED,
    ensures
        subpass_valid(atts, d) <==> !is_depth_or_stencil_format(atts[idx as int].format),
{
    lemma_depth_stencil_formats(atts[idx as int].format);
    assert(sampled_refs(d) =~= seq![idx]);
    assert(required_refs(d) =~= seq![idx]);
    assert(all_refs(d) =~= seq![idx]);
    let used = all_refs(d);
    assert(used.drop_last() =~= Seq::<u32>::empty());
    assert forall|k: u32| k < atts.len() implies #[trigger] occurrences(used, k) <= 1 by {
        assert(occurrences(used.drop_last(), k) == 0);
    }
    assert(subpass_samples_spec(atts, d) == atts[idx as int].samples);
}

/// Sample count of a subpass; every attachment it names must exist.
pub fn subpass_samples(attachments: &[AttachmentDescription], desc: &SubpassDesc) -> (r: SampleCount)
    requires
        forall|i: int| 0 <= i < sampled_refs(*desc).len() ==> (#[trigger] sampled_refs(*desc)[i]) < attachments@.len(),
    ensures
        r == subpass_samples_spec(attachments@, *desc),
{
    proof {
        let refs = sampled_refs(*desc);
        let nc = desc.color_attchs@.len();
        let ni = desc.input_attchs@.len();
        if nc > 0 {
            assert(refs[0] == desc.color_attchs@[0]);
        } else if ni > 0 {
            assert(refs[0] == desc.input_attchs@[0]);
        } else if desc.depth_stencil_attch is Some {
            assert(refs[0] == desc.depth_stencil_attch->0);
        }
    }
    if desc.color_attchs.len() > 0 {
        attachments[desc.color_attchs[0] as usize].samples
    } else if desc.input_attchs.len() > 0 {
        attachments[desc.input_attchs[0] as usize].samples
    } else {
        match desc.depth_stencil_attch {
            Some(idx) => attachments[idx as usize].samples,
            None => SampleCount::One,
        }
    }
}

fn extend_refs(r: &mut Vec<u32>, s: &Vec<u32>)
    ensures
        final(r)@ == old(r)@ + s@,
{
    let ghost start = r@;
    let mut k: usize = 0;
    while k < s.len()
        invariant
            0 <= k <= s@.len(),
            r@ == start + s@.subrange(0, k as int),
        decreases s@.len() - k,
    {
        r.push(s[k]);
        k = k + 1;
        proof {
            assert(r@ =~= start + s@.subrange(0, k as int));
        }
    }
    proof {
        assert(s@.subrange(0, s@.len() as int) =~= s@);
    }
}

fn concat_refs(desc: &SubpassDesc, with_preserve: bool, with_resolve: bool) -> (r: Vec<u32>)
    requires
        with_resolve ==> with_preserve,
    ensures
        r@ == if with_resolve {
            all_refs(*desc)
        } else if with_preserve {
            required_refs(*desc)
        } else {
            sampled_refs(*desc)
        },
{
    let mut r: Vec<u32> = Vec::new();
    extend_refs(&mut r, &desc.color_attchs);
    extend_refs(&mut r, &desc.input_attchs);
    if with_preserve {
        extend_refs(&mut r, &desc.preserve_attchs);
    }
    match desc.depth_stencil_attch {
        Some(x) => r.push(x),
        None => {},
    }
    if with_resolve {
        extend_refs(&mut r, &desc.resolve_attchs);
    }
    proof {
        if with_resolve {
            assert(r@ =~= all_refs(*desc));
        } else if with_preserve {
            assert(r@ =~= required_refs(*desc));
        } else {
            assert(r@ =~= sampled_refs(*desc));
        }
    }
    r
}

fn all_below(refs: &Vec<u32>, n: usize) -> (r: bool)
    ensures
        r == forall|i: int| 0 <= i < refs@.len() ==> (#[trigger] refs@[i]) < n,
{
    let mut k: usize = 0;
    while k < refs.len()
        invariant
            0 <= k <= refs@.len(),
            forall|i: int| 0 <= i < k ==> (#[trigger] refs@[i]) < n,
        decreases refs@.len() - k,
    {
        if refs[k] as usize >= n {
            return false;
        }
        k = k + 1;
    }
    true
}

fn all_samples(attachments: &[AttachmentDescription], refs: &Vec<u32>, samples: SampleCount) -> (r: bool)
    requires
        forall|i: int| 0 <= i < refs@.len() ==> (#[trigger] refs@[i]) < attachments@.len(),
    ensures
        r == forall|i: int| 0 <= i < refs@.len() ==> attachments@[#[trigger] refs@[i] as int].samples == samples,
{
    let mut k: usize = 0;
    while k < refs.len()
        invariant
            0 <= k <= refs@.len(),
            forall|i: int| 0 <= i < refs@.len() ==> (#[trigger] refs@[i]) < attachments@.len(),
            forall|i: int| 0 <= i < k ==> attachments@[#[trigger] refs@[i] as int].samples == samples,
        decreases refs@.len() - k,
    {
        if attachments[refs[k] as usize].samples != samples {
            return false;
        }
        k = k + 1;
    }
    true
}

fn none_unused(refs: &Vec<u32>) -> (r: bool)
    ensures
        r == forall|i: int| 0 <= i < refs@.len() ==> #[trigger] refs@[i] != ATTACHMENT_UNUSED,
{
    let mut k: usize = 0;
    while k < refs.len()
        invariant
            0 <= k <= refs@.len(),
            forall|i: int| 0 <= i < k ==> #[trigger] refs@[i] != ATTACHMENT_UNUSED,
        decreases refs@.len() - k,
    {
        if refs[k] == ATTACHMENT_UNUSED {
            return false;
        }
        k = k + 1;
    }
    true
}

/// Every used reference names an attachment, and none is used twice.
fn used_once(used: &Vec<u32>, n: usize) -> (r: bool)
    requires
        used@.len() < u32::MAX,
        n < u32::MAX,
    ensures
        r == ((forall|i: int| 0 <= i < used@.len() && #[trigger] used@[i] != ATTACHMENT_UNUSED ==> used@[i] < n)
            && (forall|k: u32| k < n ==> #[trigger] occurrences(used@, k) <= 1)),
{
    let mut counts: Vec<u32> = Vec::new();
    let mut k: usize = 0;
    while k < n
        invariant
            0 <= k <= n,
            counts@.len() == k,
            forall|j: int| 0 <= j < k ==> #[trigger] counts@[j] == 0,
        decreases n - k,
    {
        counts.push(0);
        k = k + 1;
    }
    proof {
        assert forall|j: int| 0 <= j < n implies #[trigger] counts@[j] == occurrences(
            used@.subrange(0, 0),
            j as u32,
        ) by {}
    }
    let mut k: usize = 0;
    while k < used.len()
        invariant
            0 <= k <= used@.len(),
            used@.len() < u32::MAX,
            n < u32::MAX,
            counts@.len() == n,
            forall|i: int| 0 <= i < k && #[trigger] used@[i] != ATTACHMENT_UNUSED ==> used@[i] < n,
            forall|j: int| 0 <= j < n ==> #[trigger] counts@[j] == occurrences(used@.subrange(0, k as int), j as u32),
            forall|j: int| 0 <= j < n ==> #[trigger] counts@[j] <= k,
        decreases used@.len() - k,
    {
        let idx = used[k];
        let ghost pre = used@.subrange(0, k as int);
        let ghost pre1 = used@.subrange(0, k + 1);
        proof {
            assert(pre1.drop_last() =~= pre);
            assert(pre1.last() == idx);
        }
        if idx != ATTACHMENT_UNUSED {
            if idx as usize >= n {
                return false;
            }
            let c = counts[idx as usize];
            counts.set(idx as usize, c + 1);
        }
        proof {
            assert forall|j: int| 0 <= j < n implies #[trigger] counts@[j] == occurrences(pre1, j as u32) by {
                assert(occurrences(pre1, j as u32) == occurrences(pre, j as u32) + if idx == j as u32 {
                    1nat
                } else {
                    0nat
                });
            }
        }
        k = k + 1;
    }
    proof {
        assert(used@.subrange(0, used@.len() as int) =~= used@);
    }
    let mut k: usize = 0;
    while k < n
        invariant
            0 <= k <= n,
            n < u32::MAX,
            counts@.len() == n,
            forall|j: int| 0 <= j < n ==> #[trigger] counts@[j] == occurrences(used@, j as u32),
            forall|j: u32| j < k ==> #[trigger] occurrences(used@, j) <= 1,
        decreases n - k,
    {
        if counts[k] > 1 {
            proof {
                assert(occurrences(used@, k as u32) > 1);
            }
            return false;
        }
        proof {
            assert(occurrences(used@, k as u32) <= 1);
        }
        k = k + 1;
    }
    true
}

/// Resolve attachments that are used: single-sampled, with the format
/// of the attachment at their position.
fn resolves_ok(attachments: &[AttachmentDescription], resolve: &Vec<u32>) -> (r: bool)
    ensures
        r == forall|p: int|
            0 <= p < resolve@.len() && #[trigger] resolve@[p] != ATTACHMENT_UNUSED ==> {
                &&& resolve@[p] < attachments@.len()
                &&& p < attachments@.len()
                &&& attachments@[resolve@[p] as int].samples == SampleCount::One
                &&& attachments@[p].format == attachments@[resolve@[p] as int].format
            },
{
    let n = attachments.len();
    let nr = resolve.len();
    let mut p: usize = 0;
    while p < nr
        invariant
            0 <= p <= nr,
            nr == resolve@.len(),
            n == attachments@.len(),
            forall|q: int|
                0 <= q < p && #[trigger] resolve@[q] != ATTACHMENT_UNUSED ==> {
                    &&& resolve@[q] < attachments@.len()
                    &&& q < attachments@.len()
                    &&& attachments@[resolve@[q] as int].samples == SampleCount::One
                    &&& attachments@[q].format == attachments@[resolve@[q] as int].format
                },
        decreases nr - p,
    {
        let dst = resolve[p];
        if dst == ATTACHMENT_UNUSED {
            p = p + 1;
            continue;
        }
        if dst as usize >= n || p >= n {
            return false;
        }
        if attachments[dst as usize].samples != SampleCount::One {
            return false;
        }
        if attachments[p].format != attachments[dst as usize].format {
            return false;
        }
        p = p + 1;
    }
    true
}

fn colors_ok(attachments: &[AttachmentDescription], color: &Vec<u32>) -> (r: bool)
    requires
        forall|i: int| 0 <= i < color@.len() ==> (#[trigger] color@[i]) < attachments@.len(),
    ensures
        r == forall|i: int| 0 <= i < color@.len() ==> !depth_stencil(attachments@[#[trigger] color@[i] as int].format),
{
    let nc = color.len();
    let mut k: usize = 0;
    while k < nc
        invariant
            0 <= k <= nc,
            nc == color@.len(),
            forall|i: int| 0 <= i < color@.len() ==> (#[trigger] color@[i]) < attachments@.len(),
            forall|i: int| 0 <= i < k ==> !depth_stencil(attachments@[#[trigger] color@[i] as int].format),
        decreases nc - k,
    {
        if attachments[color[k] as usize].format.is_depth_stencil() {
            return false;
        }
        k = k + 1;
    }
    true
}

/// Checks a subpass description against the pass's attachments: sample
/// counts agree, no reference is unused except resolve ones, no
/// attachment is used twice, resolve attachments are single-sampled and
/// match formats, color attachments are not depth/stencil and the
/// depth/stencil attachment is.
pub fn validate_subpass(attachments: &[AttachmentDescription], desc: &SubpassDesc) -> (r: bool)
    requires
        all_refs(*desc).len() < u32::MAX,
        attachments@.len() < u32::MAX,
    ensures
        r == subpass_valid(attachments@, *desc),
{
    let n = attachments.len();
    let ghost d = *desc;

    // Sample count
    let refs = concat_refs(desc, false, false);
    if !all_below(&refs, n) {
        return false;
    }
    let samples = subpass_samples(attachments, desc);
    if !all_samples(attachments, &refs, samples) {
        return false;
    }

    // Disallow unused references except as resolve attachments
    let req = concat_refs(desc, true, false);
    if !none_unused(&req) {
        return false;
    }

    // Disallow multiple attachment use. This is sometimes allowed (e.g.
    // input feedback) but not really desired.
    let used = concat_refs(desc, true, true);
    if !used_once(&used, n) {
        return false;
    }

    // Resolve attachments
    if desc.resolve_attchs.len() > 0 {
        if desc.color_attchs.len() != desc.resolve_attchs.len() {
            return false;
        }
        if !resolves_ok(attachments, &desc.resolve_attchs) {
            return false;
        }
    }

    // Formats
    proof {
        assert forall|i: int| 0 <= i < d.color_attchs@.len() implies (#[trigger] d.color_attchs@[i]) < n by {
            assert(refs@[i] == d.color_attchs@[i]);
        }
        if d.depth_stencil_attch is Some {
            let last = refs@.len() - 1;
            assert(refs@[last] == d.depth_stencil_attch->0);
        }
    }
    if !colors_ok(attachments, &desc.color_attchs) {
        return false;
    }
    match desc.depth_stencil_attch {
        Some(idx) => {
            if !attachments[idx as usize].format.is_depth_stencil() {
                return false;
            }
        },
        None => {},
    }
    true
}

pub open spec fn input_layout_spec(format: Format) -> ImageLayout {
    if depth_stencil(format) {
        ImageLayout::DepthStencilReadOnlyOptimal
    } else {
        ImageLayout::ShaderReadOnlyOptimal
    }
}

/// Layout in which an attachment of `format` is read as an input
/// attachment.
pub fn input_attachment_layout(format: Format) -> (r: ImageLayout)
    ensures
        r == input_layout_spec(format),
{
    if format.is_depth_stencil() {
        ImageLayout::DepthStencilReadOnlyOptimal
    } else {
        ImageLayout::ShaderReadOnlyOptimal
    }
}

fn refs_with_layout(refs: &Vec<u32>, layout: ImageLayout) -> (r: Vec<AttachmentReference>)
    ensures
        r@.len() == refs@.len(),
        forall|i: int| 0 <= i < refs@.len() ==> #[trigger] r@[i] == (AttachmentReference {
            attachment: refs@[i],
            layout,
        }),
{
    let mut r: Vec<AttachmentReference> = Vec::new();
    let mut k: usize = 0;
    while k < refs.len()
        invariant
            0 <= k <= refs@.len(),
            r@.len() == k,
            forall|i: int| 0 <= i < k ==> #[trigger] r@[i] == (AttachmentReference {
                attachment: refs@[i],
                layout,
            }),
        decreases refs@.len() - k,
    {
        r.push(AttachmentReference { attachment: refs[k], layout });
        k = k + 1;
    }
    r
}

/// `s` records subpass `d` of a pass with attachments `atts`: input
/// attachments are read in the layout their format calls for, color
/// attachments are written in color attachment layout, the depth/stencil
/// attachment in depth/stencil attachment layout, resolve attachments
/// carry an undefined layout, preserve attachments are kept as given,
/// and the sample count is the subpass's.
pub open spec fn recorded_subpass(atts: Seq<AttachmentDescription>, d: SubpassDesc, s: SubpassState) -> bool {
    &&& s.samples == subpass_samples_spec(atts, d)
    &&& s.input_attchs@.len() == d.input_attchs@.len()
    &&& forall|i: int| 0 <= i < d.input_attchs@.len() ==> #[trigger] s.input_attchs@[i] == (AttachmentReference {
        attachment: d.input_attchs@[i],
        layout: input_layout_spec(atts[d.input_attchs@[i] as int].format),
    })
    &&& s.color_attchs@.len() == d.color_attchs@.len()
    &&& forall|i: int| 0 <= i < d.color_attchs@.len() ==> #[trigger] s.color_attchs@[i] == (AttachmentReference {
        attachment: d.color_attchs@[i],
        layout: ImageLayout::ColorAttachmentOptimal,
    })
    &&& s.resolve_attchs@.len() == d.resolve_attchs@.len()
    &&& forall|i: int| 0 <= i < d.resolve_attchs@.len() ==> #[trigger] s.resolve_attchs@[i] == (AttachmentReference {
        attachment: d.resolve_attchs@[i],
        layout: ImageLayout::Undefined,
    })
    &&& s.preserve_attchs@ == d.preserve_attchs@
    &&& s.depth_stencil_attch == match d.depth_stencil_attch {
        Some(idx) => Some(AttachmentReference { attachment: idx, layout: ImageLayout::DepthStencilAttachmentOptimal }),
        None => None,
    }
}

/// The recorded form of a valid subpass: input attachments are read in
/// the layout their format calls for, color attachments are written in
/// color attachment layout, the depth/stencil attachment in
/// depth/stencil attachment layout, and resolve attachments carry an
/// undefined layout.
pub fn subpass_state(attachments: &[AttachmentDescription], desc: SubpassDesc) -> (r: SubpassState)
    requires
        subpass_valid(attachments@, desc),
    ensures
        recorded_subpass(attachments@, desc, r),
{
    let samples = subpass_samples(attachments, &desc);
    let mut input_attchs: Vec<AttachmentReference> = Vec::new();
    let mut k: usize = 0;
    let ghost refs = sampled_refs(desc);
    proof {
        assert forall|i: int| 0 <= i < desc.input_attchs@.len() implies (#[trigger] desc.input_attchs@[i])
            < attachments@.len() by {
            assert(refs[desc.color_attchs@.len() + i] == desc.input_attchs@[i]);
        }
    }
    while k < desc.input_attchs.len()
        invariant
            0 <= k <= desc.input_attchs@.len(),
            input_attchs@.len() == k,
            forall|i: int| 0 <= i < desc.input_attchs@.len() ==> (#[trigger] desc.input_attchs@[i])
                < attachments@.len(),
            forall|i: int| 0 <= i < k ==> #[trigger] input_attchs@[i] == (AttachmentReference {
                attachment: desc.input_attchs@[i],
                layout: input_layout_spec(attachments@[desc.input_attchs@[i] as int].format),
            }),
        decreases desc.input_attchs@.len() - k,
    {
        let idx = desc.input_attchs[k];
        let layout = input_attachment_layout(attachments[idx as usize].format);
        input_attchs.push(AttachmentReference { attachment: idx, layout });
        k = k + 1;
    }
    let color_attchs = refs_with_layout(&desc.color_attchs, ImageLayout::ColorAttachmentOptimal);
    let depth_stencil_attch = match desc.depth_stencil_attch {
        // DEPTH_STENCIL_READ_ONLY_OPTIMAL may be useful here
        Some(idx) => Some(AttachmentReference { attachment: idx, layout: ImageLayout::DepthStencilAttachmentOptimal }),
        None => None,
    };
    let resolve_attchs = refs_with_layout(&desc.resolve_attchs, ImageLayout::Undefined);
    SubpassState {
        input_attchs,
        color_attchs,
        resolve_attchs,
        preserve_attchs: desc.preserve_attchs,
        depth_stencil_attch,
        samples,
    }
}

/// A dependency between two subpasses (or the outside of the pass).
#[derive(Clone, Copy, Debug, PartialEq, Eq, Structural)]
pub struct SubpassDependency {
    pub src_subpass: u32,
    pub dst_subpass: u32,
    pub src_stage_mask: u32,
    pub dst_stage_mask: u32,
    pub src_access_mask: u32,
    pub dst_access_mask: u32,
    pub dependency_flags: u32,
}

pub open spec fn dependencies_valid(subpass_count: nat, deps: Seq<SubpassDependency>) -> bool {
    forall|i: int|
        0 <= i < deps.len() ==> {
            &&& ((#[trigger] deps[i]).src_subpass == SUBPASS_EXTERNAL || deps[i].src_subpass < subpass_count)
            &&& (deps[i].dst_subpass == SUBPASS_EXTERNAL || deps[i].dst_subpass < subpass_count)
        }
}

/// Every dependency names an existing subpass or the outside.
pub fn validate_dependencies(subpass_count: usize, dependencies: &[SubpassDependency]) -> (r: bool)
    ensures
        r == dependencies_valid(subpass_count as nat, dependencies@),
{
    let mut k: usize = 0;
    while k < dependencies.len()
        invariant
            0 <= k <= dependencies@.len(),
            forall|i: int|
                0 <= i < k ==> {
                    &&& ((#[trigger] dependencies@[i]).src_subpass == SUBPASS_EXTERNAL
                        || dependencies@[i].src_subpass < subpass_count)
                    &&& (dependencies@[i].dst_subpass == SUBPASS_EXTERNAL || dependencies@[i].dst_subpass
                        < subpass_count)
                },
        decreases dependencies@.len() - k,
    {
        let dep = dependencies[k];
        if !((dep.src_subpass == SUBPASS_EXTERNAL) || ((dep.src_subpass as usize) < subpass_count)) {
            return false;
        }
        if !((dep.dst_subpass == SUBPASS_EXTERNAL) || ((dep.dst_subpass as usize) < subpass_count)) {
            return false;
        }
        k = k + 1;
    }
    true
}

/// A validated render pass: its attachments, recorded subpasses and
/// dependencies.
#[derive(Debug)]
pub struct RenderPass {
    attachments: Vec<AttachmentDescription>,
    subpasses: Vec<SubpassState>,
    dependencies: Vec<SubpassDependency>,
}

impl RenderPass {
    pub closed spec fn attachments_spec(&self) -> Seq<AttachmentDescription> {
        self.attachments@
    }

    pub closed spec fn subpasses_spec(&self) -> Seq<SubpassState> {
        self.subpasses@
    }

    pub closed spec fn dependencies_spec(&self) -> Seq<SubpassDependency> {
        self.dependencies@
    }

    /// Creates a render pass from valid subpass descriptions and
    /// dependencies; each subpass is recorded as `subpass_state` does.
    pub fn new(
        attachments: Vec<AttachmentDescription>,
        subpasses: Vec<SubpassDesc>,
        dependencies: Vec<SubpassDependency>,
    ) -> (r: Self)
        requires
            forall|i: int| 0 <= i < subpasses@.len() ==> subpass_valid(attachments@, #[trigger] subpasses@[i]),
            dependencies_valid(subpasses@.len(), dependencies@),
        ensures
            r.attachments_spec() == attachments@,
            r.dependencies_spec() == dependencies@,
            r.subpasses_spec().len() == subpasses@.len(),
            forall|i: int| 0 <= i < subpasses@.len() ==> recorded_subpass(attachments@, subpasses@[i], #[trigger] r.subpasses_spec()[i]),
    {
        let mut states: Vec<SubpassState> = Vec::new();
        let n = subpasses.len();
        let mut descs = subpasses;
        let ghost all = descs@;
        let mut k: usize = 0;
        while k < n
            invariant
                0 <= k <= n,
                n == all.len(),
                descs@.len() == n - k,
                forall|i: int| 0 <= i < descs@.len() ==> #[trigger] descs@[i] == all[k + i],
                forall|i: int| 0 <= i < all.len() ==> subpass_valid(attachments@, #[trigger] all[i]),
                states@.len() == k,
                forall|i: int| 0 <= i < k ==> recorded_subpass(attachments@, all[i], #[trigger] states@[i]),
            decreases n - k,
        {
            let desc = descs.remove(0);
            proof {
                assert(desc == all[k as int]);
            }
            let state = subpass_state(attachments.as_slice(), desc);
            states.push(state);
            proof {
                assert forall|i: int| 0 <= i < descs@.len() implies #[trigger] descs@[i] == all[k + 1 + i] by {}
            }
            k = k + 1;
        }
        RenderPass { attachments, subpasses: states, dependencies }
    }

    pub fn attachments(&self) -> (r: &[AttachmentDescription])
        ensures
            r@ == self.attachments_spec(),
    {
        self.attachments.as_slice()
    }

    pub fn dependencies(&self) -> (r: &[SubpassDependency])
        ensures
            r@ == self.dependencies_spec(),
    {
        self.dependencies.as_slice()
    }

    pub fn subpass_count(&self) -> (r: usize)
        ensures
            r == self.subpasses_spec().len(),
    {
        self.subpasses.len()
    }

    /// The recorded state of subpass `index`.
    pub fn subpass(&self, index: usize) -> (r: &SubpassState)
        requires
            index < self.subpasses_spec().len(),
        ensures
            *r == self.subpasses_spec()[index as int],
    {
        &self.subpasses[index]
    }

    /// Whether some subpass reads attachment `index` as an input
    /// attachment.
    pub fn is_input_attachment(&self, index: usize) -> (r: bool)
        requires
            index < self.attachments_spec().len(),
        ensures
            r == exists|i: int, j: int|
                0 <= i < self.subpasses_spec().len() && 0 <= j < self.subpasses_spec()[i].input_attchs@.len()
                    && (#[trigger] self.subpasses_spec()[i].input_attchs@[j]).attachment == index,
    {
        let mut i: usize = 0;
        while i < self.subpasses.len()
            invariant
                0 <= i <= self.subpasses@.len(),
                index < self.attachments@.len(),
                forall|a: int, b: int|
                    0 <= a < i && 0 <= b < self.subpasses@[a].input_attchs@.len() ==> (#[trigger] self.subpasses@[a].input_attchs@[b]).attachment
                        != index,
            decreases self.subpasses@.len() - i,
        {
            let sp = &self.subpasses[i];
            let mut j: usize = 0;
            while j < sp.input_attchs.len()
                invariant
                    0 <= j <= sp.input_attchs@.len(),
                    i < self.subpasses@.len(),
                    *sp == self.subpasses@[i as int],
                    forall|b: int| 0 <= b < j ==> (#[trigger] sp.input_attchs@[b]).attachment != index,
                decreases sp.input_attchs@.len() - j,
            {
                if sp.input_attchs[j].attachment as usize == index {
                    proof {
                        assert(self.subpasses_spec()[i as int].input_attchs@[j as int].attachment == index);
                    }
                    return true;
                }
                j = j + 1;
            }
            i = i + 1;
        }
        false
    }
}

/// Some subpass of `subpasses` reads attachment `index` as an input.
pub open spec fn read_as_input(subpasses: Seq<SubpassState>, index: int) -> bool {
    exists|i: int, j: int|
        0 <= i < subpasses.len() && 0 <= j < subpasses[i].input_attchs@.len() && (#[trigger] subpasses[i].input_attchs@[j]).attachment == index
}

/// The image flags of the render target for attachment `index` of a
/// pass: `NO_SAMPLE` when `sampled` is asked for, a depth/stencil or
/// color attachment by its format, and an input attachment where a
/// subpass reads it as one.
pub open spec fn target_flags_spec(pass_atts: Seq<AttachmentDescription>, subpasses: Seq<SubpassState>, index: int, sampled: bool) -> u32 {
    (if sampled { NO_SAMPLE } else { 0u32 })
    | (if depth_stencil(pass_atts[index].format) { DEPTH_STENCIL_ATTACHMENT } else { COLOR_ATTACHMENT })
    | (if read_as_input(subpasses, index) { INPUT_ATTACHMENT } else { 0u32 })
}

/// The image flags to create the render target of attachment `index` of
/// `pass` with.
pub fn render_target_flags(pass: &RenderPass, index: usize, sampled: bool) -> (r: ImageFlags)
    requires
        index < pass.attachments_spec().len(),
    ensures
        r.bits == target_flags_spec(pass.attachments_spec(), pass.subpasses_spec(), index as int, sampled),
{
    let sample_bits: u32 = if sampled {
        NO_SAMPLE
    } else {
        0
    };
    let kind_bits: u32 = if pass.attachments()[index].format.is_depth_stencil() {
        DEPTH_STENCIL_ATTACHMENT
    } else {
        COLOR_ATTACHMENT
    };
    let input_bits: u32 = if pass.is_input_attachment(index) {
        INPUT_ATTACHMENT
    } else {
        0
    };
    ImageFlags { bits: sample_bits | kind_bits | input_bits }
}

/// What framebuffer validation needs to know of an attachment view.
#[derive(Clone, Copy, Debug, PartialEq, Eq, Structural)]
pub struct FramebufferAttachment {
    pub format: Format,
    pub samples: SampleCount,
    pub width: u32,
    pub height: u32,
    /// Swapchain images are not checked for layers and mip levels.
    pub is_swapchain: bool,
    pub layers: u32,
    pub mip_levels: u32,
}

pub open spec fn framebuffer_valid(pass: Seq<AttachmentDescription>, atts: Seq<FramebufferAttachment>) -> bool {
    &&& atts.len() > 0
    &&& atts.len() == pass.len()
    &&& forall|i: int|
        0 <= i < atts.len() ==> {
            &&& (#[trigger] atts[i]).format == pass[i].format
            &&& atts[i].samples == pass[i].samples
            &&& atts[i].width == atts[0].width && atts[i].height == atts[0].height
            &&& !atts[i].is_swapchain ==> atts[i].layers == 1 && atts[i].mip_levels == 1
        }
}

/// Framebuffer attachments match the pass's attachments in number,
/// format and sample count, share one extent, and image views have a
/// single layer and mip level.
pub fn validate_framebuffer_creation(
    pass: &[AttachmentDescription],
    attachments: &[FramebufferAttachment],
) -> (r: bool)
    ensures
        r == framebuffer_valid(pass@, attachments@),
{
    if attachments.len() == 0 || attachments.len() != pass.len() {
        return false;
    }
    let first = attachments[0];
    let mut k: usize = 0;
    while k < attachments.len()
        invariant
            0 <= k <= attachments@.len(),
            attachments@.len() == pass@.len(),
            attachments@.len() > 0,
            first == attachments@[0],
            forall|i: int|
                0 <= i < k ==> {
                    &&& (#[trigger] attachments@[i]).format == pass@[i].format
                    &&& attachments@[i].samples == pass@[i].samples
                    &&& attachments@[i].width == first.width && attachments@[i].height == first.height
                    &&& !attachments@[i].is_swapchain ==> attachments@[i].layers == 1
                        && attachments@[i].mip_levels == 1
                },
        decreases attachments@.len() - k,
    {
        let a = attachments[k];
        let d = pass[k];
        if a.format != d.format || a.samples != d.samples {
            return false;
        }
        if a.width != first.width || a.height != first.height {
            return false;
        }
        if !a.is_swapchain && (a.layers != 1 || a.mip_levels != 1) {
            return false;
        }
        k = k + 1;
    }
    true
}

/// Every attachment that is cleared on load has a clear value.
pub fn clear_values_cover(attachments: &[AttachmentDescription], clear_count: usize) -> (r: bool)
    ensures
        r == forall|i: int| 0 <= i < attachments@.len() && (#[trigger] attachments@[i]).load_op == LoadOp::Clear
            ==> clear_count > i,
{
    let mut k: usize = 0;
    while k < attachments.len()
        invariant
            0 <= k <= attachments@.len(),
            forall|i: int| 0 <= i < k && (#[trigger] attachments@[i]).load_op == LoadOp::Clear ==> clear_count > i,
        decreases attachments@.len() - k,
    {
        if attachments[k].load_op == LoadOp::Clear && !(clear_count > k) {
            return false;
        }
        k = k + 1;
    }
    true
}

} // verus!
