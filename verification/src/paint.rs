//! The images that a painting job has produced.

use vstd::prelude::*;
use vstd::string::StringExecFns;

verus! {

/// One input of a node of a painting workflow.
#[derive(Debug, Clone, PartialEq, Eq)]
pub enum InputSpec {
    Text(String),
    Integer(i64),
    /// A floating-point number, held as the bits of its IEEE 754 double.
    Number(u64),
    /// The output `output` of the node at position `node` of the workflow.
    Slot { node: usize, output: u32 },
}

/// One node of a painting workflow: its class and its named inputs.
#[derive(Debug, Clone, PartialEq, Eq)]
pub struct NodeSpec {
    pub class_type: String,
    pub inputs: Vec<(String, InputSpec)>,
}

/// The mathematical content of an [`InputSpec`].
pub enum InputView {
    Text(Seq<char>),
    Integer(i64),
    Number(u64),
    Slot { node: usize, output: u32 },
}

impl View for InputSpec {
    type V = InputView;

    open spec fn view(&self) -> InputView {
        match *self {
            InputSpec::Text(text) => InputView::Text(text@),
            InputSpec::Integer(value) => InputView::Integer(value),
            InputSpec::Number(bits) => InputView::Number(bits),
            InputSpec::Slot { node, output } => InputView::Slot { node, output },
        }
    }
}

/// The mathematical content of a [`NodeSpec`].
pub struct NodeView {
    pub class_type: Seq<char>,
    pub inputs: Seq<(Seq<char>, InputView)>,
}

impl View for NodeSpec {
    type V = NodeView;

    open spec fn view(&self) -> NodeView {
        NodeView {
            class_type: self.class_type@,
            inputs: Seq::new(
                self.inputs@.len(),
                |i: int| (self.inputs@[i].0@, self.inputs@[i].1@),
            ),
        }
    }
}

/// The contents of every node in `nodes`, in order.
pub open spec fn node_views(nodes: Seq<NodeSpec>) -> Seq<NodeView> {
    Seq::new(nodes.len(), |i: int| nodes[i]@)
}

/// The bits of the double 8.0, the guidance scale of the sampler.
pub const GUIDANCE_SCALE_BITS: u64 = 0x4020_0000_0000_0000;

/// The bits of the double 1.0, the denoising strength of the sampler.
pub const DENOISE_BITS: u64 = 0x3FF0_0000_0000_0000;

/// The workflow that paints one 1024 by 1024 image with the SDXL base
/// model: checkpoint loader, the two prompt encoders, an empty latent image,
/// the sampler with twenty Euler steps, the decoder and the preview.
pub open spec fn sdxl_nodes(prompt: Seq<char>, negative_prompt: Seq<char>, seed: i64) -> Seq<
    NodeView,
> {
    seq![
        NodeView {
            class_type: "CheckpointLoaderSimple"@,
            inputs: seq![("ckpt_name"@, InputView::Text("sd_xl_base_1.0.safetensors"@))],
        },
        NodeView {
            class_type: "CLIPTextEncode"@,
            inputs: seq![
                ("text"@, InputView::Text(prompt)),
                ("clip"@, InputView::Slot { node: 0, output: 1 }),
            ],
        },
        NodeView {
            class_type: "CLIPTextEncode"@,
            inputs: seq![
                ("text"@, InputView::Text(negative_prompt)),
                ("clip"@, InputView::Slot { node: 0, output: 1 }),
            ],
        },
        NodeView {
            class_type: "EmptyLatentImage"@,
            inputs: seq![
                ("width"@, InputView::Integer(1024)),
                ("height"@, InputView::Integer(1024)),
                ("batch_size"@, InputView::Integer(1)),
            ],
        },
        NodeView {
            class_type: "KSampler"@,
            inputs: seq![
                ("model"@, InputView::Slot { node: 0, output: 0 }),
                ("seed"@, InputView::Integer(seed)),
                ("steps"@, InputView::Integer(20)),
                ("cfg"@, InputView::Number(GUIDANCE_SCALE_BITS)),
                ("sampler_name"@, InputView::Text("euler"@)),
                ("scheduler"@, InputView::Text("normal"@)),
                ("positive"@, InputView::Slot { node: 1, output: 0 }),
                ("negative"@, InputView::Slot { node: 2, output: 0 }),
                ("latent_image"@, InputView::Slot { node: 3, output: 0 }),
                ("denoise"@, InputView::Number(DENOISE_BITS)),
            ],
        },
        NodeView {
            class_type: "VAEDecode"@,
            inputs: seq![
                ("samples"@, InputView::Slot { node: 4, output: 0 }),
                ("vae"@, InputView::Slot { node: 0, output: 2 }),
            ],
        },
        NodeView {
            class_type: "PreviewImage"@,
            inputs: seq![("images"@, InputView::Slot { node: 5, output: 0 })],
        },
    ]
}

/// Every slot input of every node refers to a node that stands before it.
pub open spec fn feeds_forward(nodes: Seq<NodeView>) -> bool {
    forall|i: int, j: int|
        0 <= i < nodes.len() && 0 <= j < nodes[i].inputs.len() ==> match (
        #[trigger] nodes[i].inputs[j]).1 {
            InputView::Slot { node, .. } => node < i,
            _ => true,
        }
}

fn text(name: &str, value: &str) -> (input: (String, InputSpec))
    ensures
        input.0@ == name@,
        input.1@ == InputView::Text(value@),
{
    (String::from_str(name), InputSpec::Text(String::from_str(value)))
}

fn integer(name: &str, value: i64) -> (input: (String, InputSpec))
    ensures
        input.0@ == name@,
        input.1@ == InputView::Integer(value),
{
    (String::from_str(name), InputSpec::Integer(value))
}

fn number(name: &str, bits: u64) -> (input: (String, InputSpec))
    ensures
        input.0@ == name@,
        input.1@ == InputView::Number(bits),
{
    (String::from_str(name), InputSpec::Number(bits))
}

fn slot(name: &str, node: usize, output: u32) -> (input: (String, InputSpec))
    ensures
        input.0@ == name@,
        input.1@ == (InputView::Slot { node, output }),
{
    (String::from_str(name), InputSpec::Slot { node, output })
}

fn node(class_type: &str, inputs: Vec<(String, InputSpec)>) -> (node: NodeSpec)
    ensures
        node@.class_type == class_type@,
        node@.inputs.len() == inputs@.len(),
        forall|i: int|
            0 <= i < inputs@.len() ==> #[trigger] node@.inputs[i] == (inputs@[i].0@, inputs@[i].1@),
{
    NodeSpec { class_type: String::from_str(class_type), inputs }
}

/// Builds the workflow that paints `prompt` with the SDXL base model,
/// steering away from `negative_prompt`, from the given seed.
pub fn build_sdxl_workflow(prompt: &str, negative_prompt: &str, seed: i64) -> (nodes: Vec<NodeSpec>)
    ensures
        node_views(nodes@) == sdxl_nodes(prompt@, negative_prompt@, seed),
        feeds_forward(node_views(nodes@)),
{
    let mut nodes: Vec<NodeSpec> = Vec::new();
    nodes.push(
        node("CheckpointLoaderSimple", vec![text("ckpt_name", "sd_xl_base_1.0.safetensors")]),
    );
    nodes.push(node("CLIPTextEncode", vec![text("text", prompt), slot("clip", 0, 1)]));
    nodes.push(node("CLIPTextEncode", vec![text("text", negative_prompt), slot("clip", 0, 1)]));
    nodes.push(
        node(
            "EmptyLatentImage",
            vec![integer("width", 1024), integer("height", 1024), integer("batch_size", 1)],
        ),
    );
    nodes.push(
        node(
            "KSampler",
            vec![
                slot("model", 0, 0),
                integer("seed", seed),
                integer("steps", 20),
                number("cfg", GUIDANCE_SCALE_BITS),
                text("sampler_name", "euler"),
                text("scheduler", "normal"),
                slot("positive", 1, 0),
                slot("negative", 2, 0),
                slot("latent_image", 3, 0),
                number("denoise", DENOISE_BITS),
            ],
        ),
    );
    nodes.push(node("VAEDecode", vec![slot("samples", 4, 0), slot("vae", 0, 2)]));
    nodes.push(node("PreviewImage", vec![slot("images", 5, 0)]));
    proof {
        let got = node_views(nodes@);
        let want = sdxl_nodes(prompt@, negative_prompt@, seed);
        assert(got.len() == want.len());
        assert forall|i: int| 0 <= i < got.len() implies got[i] == want[i] by {
            assert(got[i].inputs =~= want[i].inputs);
        }
        assert(got =~= want);
        lemma_sdxl_feeds_forward(prompt@, negative_prompt@, seed);
    }
    nodes
}

/// The SDXL workflow feeds forward: every node takes its inputs from nodes
/// that stand before it.
pub proof fn lemma_sdxl_feeds_forward(prompt: Seq<char>, negative_prompt: Seq<char>, seed: i64)
    ensures
        feeds_forward(sdxl_nodes(prompt, negative_prompt, seed)),
{
    let nodes = sdxl_nodes(prompt, negative_prompt, seed);
    assert forall|i: int, j: int|
        0 <= i < nodes.len() && 0 <= j < nodes[i].inputs.len() implies match (
    #[trigger] nodes[i].inputs[j]).1 {
        InputView::Slot { node, .. } => node < i,
        _ => true,
    } by {
        if i == 0 {
        } else if i == 1 {
        } else if i == 2 {
        } else if i == 3 {
        } else if i == 4 {
        } else if i == 5 {
        } else {
        }
    }
}

/// The negative prompt used when a script gives none.
pub fn negative_or_default(negative_prompt: Option<String>) -> (text: String)
    ensures
        text@ == (match negative_prompt {
            Some(given) => given@,
            None => "text, watermark, blurry"@,
        }),
{
    match negative_prompt {
        Some(given) => given,
        None => String::from_str("text, watermark, blurry"),
    }
}

/// The result of a painting job: the bytes of each image.
#[derive(Debug, Clone, PartialEq, Eq)]
pub struct PaintResult {
    pub images: Vec<Vec<u8>>,
}

impl PaintResult {
    /// The number of images.
    pub fn image_count(&self) -> (count: usize)
        ensures
            count == self.images.len(),
    {
        self.images.len()
    }

    /// The image at `index`, counted from one as scripts do; zero is taken
    /// as one. `None` when there is no such image.
    pub fn get_image(&self, index: usize) -> (image: Option<&Vec<u8>>)
        ensures
            ({
                let at = if index == 0 {
                    0
                } else {
                    index - 1
                };
                match image {
                    Some(image) => at < self.images.len() && *image == self.images[at],
                    None => at >= self.images.len(),
                }
            }),
    {
        let at: usize = if index == 0 {
            0
        } else {
            index - 1
        };
        if at < self.images.len() {
            Some(&self.images[at])
        } else {
            None
        }
    }
}

} // verus!
