//! The pass that draws an item being activated over the finished frame.
use vstd::prelude::*;

use crate::gpu::Format;

verus! {

pub const STAGE_EARLY_FRAGMENT_TESTS: u32 = 0x100;

pub const STAGE_LATE_FRAGMENT_TESTS: u32 = 0x200;

pub const STAGE_COLOR_ATTACHMENT_OUTPUT: u32 = 0x400;

pub const STAGE_BOTTOM_OF_PIPE: u32 = 0x2000;

pub const ACCESS_COLOR_ATTACHMENT_READ: u32 = 0x80;

pub const ACCESS_COLOR_ATTACHMENT_WRITE: u32 = 0x100;

pub const ACCESS_DEPTH_STENCIL_ATTACHMENT_WRITE: u32 = 0x400;

pub const ACCESS_MEMORY_READ: u32 = 0x8000;

/// One end of a dependency.
#[derive(Clone, Copy, Debug, PartialEq, Eq, Structural)]
pub enum Subpass {
    External,
    First,
}

/// What must have happened before what may start. Both hold for each region of
/// the frame by itself.
#[derive(Clone, Copy, Debug, PartialEq, Eq, Structural)]
pub struct SubpassDependency {
    pub src_subpass: Subpass,
    pub dst_subpass: Subpass,
    pub src_stage_mask: u32,
    pub src_access_mask: u32,
    pub dst_stage_mask: u32,
    pub dst_access_mask: u32,
}

/// Every bit of `part` is set in `mask`.
pub open spec fn covers(mask: u32, part: u32) -> bool {
    mask & part == part
}

/// The two dependencies between the pass and what is around it, before and after.
/// Either waits for the colour and the early and late depth writes that precede it.
pub fn external_dependencies() -> (deps: [SubpassDependency; 2])
    ensures
        deps@[0] == (SubpassDependency {
            src_subpass: Subpass::External,
            dst_subpass: Subpass::First,
            src_stage_mask: 0x700,
            src_access_mask: 0x500,
            dst_stage_mask: 0x500,
            dst_access_mask: 0x580,
        }),
        deps@[1] == (SubpassDependency {
            src_subpass: Subpass::First,
            dst_subpass: Subpass::External,
            src_stage_mask: 0x700,
            src_access_mask: 0x500,
            dst_stage_mask: 0x2400,
            dst_access_mask: 0x8080,
        }),
        forall|i: int| #![trigger deps@[i]]
            0 <= i < 2 ==> covers(deps@[i].src_stage_mask, STAGE_EARLY_FRAGMENT_TESTS) && covers(
                deps@[i].src_stage_mask,
                STAGE_LATE_FRAGMENT_TESTS,
            ) && covers(deps@[i].src_stage_mask, STAGE_COLOR_ATTACHMENT_OUTPUT) && covers(
                deps@[i].src_access_mask,
                ACCESS_DEPTH_STENCIL_ATTACHMENT_WRITE,
            ) && covers(deps@[i].src_access_mask, ACCESS_COLOR_ATTACHMENT_WRITE),
{
    proof {
        assert(0x400u32 | 0x100u32 | 0x200u32 == 0x700u32) by (bit_vector);
        assert(0x100u32 | 0x400u32 == 0x500u32) by (bit_vector);
        assert(0x400u32 | 0x100u32 == 0x500u32) by (bit_vector);
        assert(0x80u32 | 0x100u32 | 0x400u32 == 0x580u32) by (bit_vector);
        assert(0x400u32 | 0x2000u32 == 0x2400u32) by (bit_vector);
        assert(0x80u32 | 0x8000u32 == 0x8080u32) by (bit_vector);
        assert(0x700u32 & 0x100u32 == 0x100u32) by (bit_vector);
        assert(0x700u32 & 0x200u32 == 0x200u32) by (bit_vector);
        assert(0x700u32 & 0x400u32 == 0x400u32) by (bit_vector);
        assert(0x500u32 & 0x400u32 == 0x400u32) by (bit_vector);
        assert(0x500u32 & 0x100u32 == 0x100u32) by (bit_vector);
    }
    [
        SubpassDependency {
            src_subpass: Subpass::External,
            dst_subpass: Subpass::First,
            src_stage_mask: STAGE_COLOR_ATTACHMENT_OUTPUT | STAGE_EARLY_FRAGMENT_TESTS
                | STAGE_LATE_FRAGMENT_TESTS,
            src_access_mask: ACCESS_COLOR_ATTACHMENT_WRITE | ACCESS_DEPTH_STENCIL_ATTACHMENT_WRITE,
            dst_stage_mask: STAGE_COLOR_ATTACHMENT_OUTPUT | STAGE_EARLY_FRAGMENT_TESTS,
            dst_access_mask: ACCESS_COLOR_ATTACHMENT_READ | ACCESS_COLOR_ATTACHMENT_WRITE
                | ACCESS_DEPTH_STENCIL_ATTACHMENT_WRITE,
        },
        SubpassDependency {
            src_subpass: Subpass::First,
            dst_subpass: Subpass::External,
            src_stage_mask: STAGE_COLOR_ATTACHMENT_OUTPUT | STAGE_EARLY_FRAGMENT_TESTS
                | STAGE_LATE_FRAGMENT_TESTS,
            src_access_mask: ACCESS_COLOR_ATTACHMENT_WRITE | ACCESS_DEPTH_STENCIL_ATTACHMENT_WRITE,
            dst_stage_mask: STAGE_COLOR_ATTACHMENT_OUTPUT | STAGE_BOTTOM_OF_PIPE,
            dst_access_mask: ACCESS_COLOR_ATTACHMENT_READ | ACCESS_MEMORY_READ,
        },
    ]
}

#[derive(Clone, Copy, Debug, PartialEq, Eq, Structural)]
pub enum LoadOp {
    Load,
    Clear,
}

#[derive(Clone, Copy, Debug, PartialEq, Eq, Structural)]
pub enum ImageLayout {
    Undefined,
    ColorAttachmentOptimal,
    DepthStencilAttachmentOptimal,
    PresentSrc,
}

/// An image the pass draws to; without a format of its own it has the depth format.
#[derive(Clone, Copy, Debug, PartialEq, Eq, Structural)]
pub struct Attachment {
    pub color: Option<Format>,
    pub load: LoadOp,
    pub store: bool,
    pub initial_layout: ImageLayout,
    pub final_layout: ImageLayout,
}

/// The attachments: the frame is kept and drawn over, the depth starts afresh and
/// is dropped.
pub fn attachments(color: Format) -> (list: [Attachment; 2])
    ensures
        list@[0] == (Attachment {
            color: Some(color),
            load: LoadOp::Load,
            store: true,
            initial_layout: ImageLayout::ColorAttachmentOptimal,
            final_layout: ImageLayout::PresentSrc,
        }),
        list@[1] == (Attachment {
            color: None,
            load: LoadOp::Clear,
            store: false,
            initial_layout: ImageLayout::Undefined,
            final_layout: ImageLayout::DepthStencilAttachmentOptimal,
        }),
{
    [
        Attachment {
            color: Some(color),
            load: LoadOp::Load,
            store: true,
            initial_layout: ImageLayout::ColorAttachmentOptimal,
            final_layout: ImageLayout::PresentSrc,
        },
        Attachment {
            color: None,
            load: LoadOp::Clear,
            store: false,
            initial_layout: ImageLayout::Undefined,
            final_layout: ImageLayout::DepthStencilAttachmentOptimal,
        },
    ]
}

/// A framebuffer or image, by its number.
pub type Handle = u64;

/// A depth image of the pass.
#[derive(Clone, Copy, Debug, PartialEq, Eq, Structural)]
pub struct DepthTarget {
    pub image: Handle,
    pub view: Handle,
}

/// What the pass owns: one framebuffer and one depth image for each image of the
/// swapchain.
pub struct ActivationTargets {
    pub render_pass: Option<Handle>,
    pub framebuffers: Vec<Handle>,
    pub depth_targets: Vec<DepthTarget>,
    pub width: u32,
    pub height: u32,
}

/// Something to give back to the device.
#[derive(Clone, Copy, Debug, PartialEq, Eq, Structural)]
pub enum Release {
    Framebuffer(Handle),
    Depth(DepthTarget),
    RenderPass(Handle),
}

/// What a set of targets gives back, in order: framebuffers before the depth images
/// they use, the pass last.
pub open spec fn releases(targets: ActivationTargets) -> Seq<Release> {
    targets.framebuffers@.map_values(|f: Handle| Release::Framebuffer(f))
        + targets.depth_targets@.map_values(|d: DepthTarget| Release::Depth(d)) + (
    match targets.render_pass {
        Some(p) => seq![Release::RenderPass(p)],
        None => Seq::empty(),
    })
}

impl ActivationTargets {
    /// Targets that own nothing yet but their pass.
    pub fn new(render_pass: Handle, width: u32, height: u32) -> (targets: Self)
        ensures
            targets.render_pass == Some(render_pass),
            targets.framebuffers@ == Seq::<Handle>::empty(),
            targets.depth_targets@ == Seq::<DepthTarget>::empty(),
            targets.width == width,
            targets.height == height,
    {
        ActivationTargets {
            render_pass: Some(render_pass),
            framebuffers: Vec::new(),
            depth_targets: Vec::new(),
            width,
            height,
        }
    }

    /// The framebuffer to begin the pass on.
    pub fn begin_activation(&self, image_index: usize) -> (framebuffer: Handle)
        requires
            image_index < self.framebuffers@.len(),
        ensures
            framebuffer == self.framebuffers@[image_index as int],
    {
        self.framebuffers[image_index]
    }

    /// Gives everything back. Done twice, the second time finds nothing.
    pub fn destroy(&mut self) -> (list: Vec<Release>)
        ensures
            list@ == releases(*old(self)),
            final(self).framebuffers@ == Seq::<Handle>::empty(),
            final(self).depth_targets@ == Seq::<DepthTarget>::empty(),
            final(self).render_pass is None,
            final(self).width == old(self).width,
            final(self).height == old(self).height,
    {
        let ghost before = *self;
        let mut list: Vec<Release> = Vec::new();
        let mut i: usize = 0;
        let ghost part1 = before.framebuffers@.map_values(|f: Handle| Release::Framebuffer(f));
        let ghost part2 = before.depth_targets@.map_values(|d: DepthTarget| Release::Depth(d));
        while i < self.framebuffers.len()
            invariant
                *self == before,
                i <= self.framebuffers@.len(),
                part1 == before.framebuffers@.map_values(|f: Handle| Release::Framebuffer(f)),
                list@ =~= part1.take(i as int),
            decreases self.framebuffers@.len() - i,
        {
            list.push(Release::Framebuffer(self.framebuffers[i]));
            i = i + 1;
        }
        i = 0;
        while i < self.depth_targets.len()
            invariant
                *self == before,
                i <= self.depth_targets@.len(),
                part2 == before.depth_targets@.map_values(|d: DepthTarget| Release::Depth(d)),
                list@ =~= part1 + part2.take(i as int),
            decreases self.depth_targets@.len() - i,
        {
            list.push(Release::Depth(self.depth_targets[i]));
            i = i + 1;
        }
        assert(list@ =~= part1 + part2);
        if let Some(pass) = self.render_pass {
            list.push(Release::RenderPass(pass));
        }
        assert(list@ =~= releases(before));
        self.framebuffers = Vec::new();
        self.depth_targets = Vec::new();
        self.render_pass = None;
        list
    }
}

/// Giving back what was already given back releases nothing.
pub proof fn law_nothing_is_released_twice(targets: ActivationTargets)
    requires
        targets.framebuffers@ == Seq::<Handle>::empty(),
        targets.depth_targets@ == Seq::<DepthTarget>::empty(),
        targets.render_pass is None,
    ensures
        releases(targets) == Seq::<Release>::empty(),
{
    assert(releases(targets) =~= Seq::<Release>::empty());
}

/// Everything owned is given back, each thing once: the framebuffers first, then the
/// depth images they use, and the pass last.
pub proof fn law_everything_is_released_in_order(targets: ActivationTargets, i: int)
    ensures
        ({
            let list = releases(targets);
            let f = targets.framebuffers@.len() as int;
            let d = targets.depth_targets@.len() as int;
            &&& list.len() == f + d + (if targets.render_pass is Some {
                1int
            } else {
                0
            })
            &&& 0 <= i < f ==> list[i] == Release::Framebuffer(targets.framebuffers@[i])
            &&& f <= i < f + d ==> list[i] == Release::Depth(targets.depth_targets@[i - f])
            &&& targets.render_pass matches Some(p) ==> list.last() == Release::RenderPass(p)
        }),
{
}

} // verus!
