//! The render-pass plan: the single-attachment, single-subpass pass the
//! renderer draws with, described as plain values the driver call is built
//! from. The colour attachment is cleared on load, stored on completion,
//! and handed over ready for presentation.

use vstd::prelude::*;

verus! {

/// How an attachment's contents are treated when the pass begins.
#[derive(Clone, Copy, PartialEq, Eq, Structural, Debug)]
pub enum AttachmentLoadOp {
    Load,
    Clear,
    DontCare,
}

/// How an attachment's contents are treated when the pass ends.
#[derive(Clone, Copy, PartialEq, Eq, Structural, Debug)]
pub enum AttachmentStoreOp {
    Store,
    DontCare,
}

/// The image layouts the plan speaks of.
#[derive(Clone, Copy, PartialEq, Eq, Structural, Debug)]
pub enum ImageLayout {
    Undefined,
    ColorAttachmentOptimal,
    PresentSrc,
}

/// The pipeline kind a subpass binds to.
#[derive(Clone, Copy, PartialEq, Eq, Structural, Debug)]
pub enum PipelineBindPoint {
    Graphics,
    Compute,
}

/// One attachment of the pass.
#[derive(Clone, Copy, PartialEq, Eq, Structural, Debug)]
pub struct AttachmentPlan {
    /// Pixel format, taken from the swapchain images the pass renders to.
    pub format: u32,
    /// Sample count; 1 means no multisampling.
    pub sample_count: u32,
    pub load_op: AttachmentLoadOp,
    pub store_op: AttachmentStoreOp,
    pub initial_layout: ImageLayout,
    pub final_layout: ImageLayout,
}

/// A reference from a subpass to an attachment, by position.
#[derive(Clone, Copy, PartialEq, Eq, Structural, Debug)]
pub struct AttachmentRef {
    pub attachment: u32,
    pub layout: ImageLayout,
}

/// One subpass of the pass.
#[derive(Clone, Debug)]
pub struct SubpassPlan {
    pub bind_point: PipelineBindPoint,
    pub color_attachments: Vec<AttachmentRef>,
}

/// The full render-pass description handed to the driver.
#[derive(Clone, Debug)]
pub struct RenderPassPlan {
    pub attachments: Vec<AttachmentPlan>,
    pub subpasses: Vec<SubpassPlan>,
}

/// The single colour attachment: the swapchain's format, one sample,
/// cleared on load, stored on completion, entered with undefined contents
/// and left ready for presentation.
pub open spec fn color_attachment_spec(swapchain_image_format: u32) -> AttachmentPlan {
    AttachmentPlan {
        format: swapchain_image_format,
        sample_count: 1,
        load_op: AttachmentLoadOp::Clear,
        store_op: AttachmentStoreOp::Store,
        initial_layout: ImageLayout::Undefined,
        final_layout: ImageLayout::PresentSrc,
    }
}

/// The render-pass context: the plan of the pass, owned by the node that
/// extends the context chain below the swapchain.
#[derive(Clone, Debug)]
pub struct RenderPassCtx {
    pub plan: RenderPassPlan,
}

impl RenderPassCtx {
    /// Builds the pass description: exactly one attachment — the swapchain
    /// colour attachment — and exactly one graphics subpass referring to it
    /// in colour-attachment-optimal layout.
    pub fn new(swapchain_image_format: u32) -> (r: RenderPassCtx)
        ensures
            r.plan.attachments@ =~= seq![color_attachment_spec(swapchain_image_format)],
            r.plan.subpasses@.len() == 1,
            r.plan.subpasses@[0].bind_point == PipelineBindPoint::Graphics,
            r.plan.subpasses@[0].color_attachments@ =~= seq![
                AttachmentRef { attachment: 0, layout: ImageLayout::ColorAttachmentOptimal },
            ],
    {
        let mut attachments: Vec<AttachmentPlan> = Vec::new();
        attachments.push(
            AttachmentPlan {
                format: swapchain_image_format,
                sample_count: 1,
                load_op: AttachmentLoadOp::Clear,
                store_op: AttachmentStoreOp::Store,
                initial_layout: ImageLayout::Undefined,
                final_layout: ImageLayout::PresentSrc,
            },
        );
        let mut color_attachments: Vec<AttachmentRef> = Vec::new();
        color_attachments.push(
            AttachmentRef { attachment: 0, layout: ImageLayout::ColorAttachmentOptimal },
        );
        let mut subpasses: Vec<SubpassPlan> = Vec::new();
        subpasses.push(SubpassPlan { bind_point: PipelineBindPoint::Graphics, color_attachments });
        RenderPassCtx { plan: RenderPassPlan { attachments, subpasses } }
    }
}

} // verus!
