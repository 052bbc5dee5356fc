//! The image-classification model used to demonstrate adaptive batching: its class
//! names, its cost estimates and the batch size of an image request.
use crate::container::Batchable;
use crate::text::{decimal, push_decimal, zero_padded};
use vstd::prelude::*;

verus! {

/// The error type the model constructors report in (`anyhow::Error`).
#[verifier::external_type_specification]
#[verifier::external_body]
pub struct ExAnyhowError(anyhow::Error);

/// Convolutional neural network model.
pub struct CNNModel {
    input_size: u32,
    num_classes: usize,
    class_names: Vec<String>,
}

/// Model configuration for different architectures.
#[derive(Debug, Clone)]
pub enum ModelArchitecture {
    ResNet18,
    ResNet50,
    EfficientNetB0,
    MobileNetV2,
    Custom { layers: Vec<LayerConfig> },
}

/// Layer configuration for custom models.
#[derive(Debug, Clone)]
pub struct LayerConfig {
    pub layer_type: LayerType,
    pub input_channels: usize,
    pub output_channels: usize,
    pub kernel_size: usize,
    pub stride: usize,
}

/// Types of neural network layers.
#[derive(Debug, Clone)]
pub enum LayerType {
    Convolution,
    DepthwiseConvolution,
    FullyConnected,
    BatchNorm,
    ReLU,
    MaxPool,
    AvgPool,
    Dropout,
}

/// Model information structure.
#[derive(Debug)]
pub struct ModelInfo {
    pub input_size: u32,
    pub num_classes: usize,
    pub estimated_params: usize,
    pub estimated_flops: usize,
}

/// The name of class `i`: `class_` and `i` in decimal, zero-padded to three digits.
pub open spec fn class_name(i: nat) -> Seq<char> {
    "class_"@ + zero_padded(decimal(i), 3)
}

/// The estimated number of parameters: `input_size² · 512 + 512 · num_classes`.
pub open spec fn estimated_parameters(input_size: nat, num_classes: nat) -> nat {
    input_size * input_size * 512 + 512 * num_classes
}

/// The estimated FLOPs per inference: `input_size² · 512 · 9 + 512 · num_classes`.
pub open spec fn estimated_flops(input_size: nat, num_classes: nat) -> nat {
    input_size * input_size * 512 * 9 + 512 * num_classes
}

/// The name of class `i`.
pub fn class_label(i: usize) -> (s: String)
    ensures
        s@ == class_name(i as nat),
{
    let mut s = String::from_str("class_");
    proof {
        reveal_strlit("class_");
    }
    push_decimal(&mut s, i as u128, 3);
    s
}

impl CNNModel {
    /// There is one name per class.
    #[verifier::type_invariant]
    spec fn names_every_class(self) -> bool {
        self.class_names@.len() == self.num_classes
    }

    /// The side of the square images the model takes.
    pub closed spec fn input_size_spec(&self) -> nat {
        self.input_size as nat
    }

    /// The number of classes.
    pub closed spec fn num_classes_spec(&self) -> nat {
        self.num_classes as nat
    }

    /// The class names, in class order.
    pub closed spec fn class_names_spec(&self) -> Seq<Seq<char>> {
        self.class_names@.map_values(|s: String| s@)
    }

    /// Create a new CNN model with `num_classes` classes named `class_000`,
    /// `class_001`, and so on.
    pub fn new(input_size: u32, num_classes: usize) -> (r: Result<Self, anyhow::Error>)
        ensures
            r matches Ok(m) && m.input_size_spec() == input_size && m.num_classes_spec()
                == num_classes && m.class_names_spec().len() == num_classes && forall|i: int|
                0 <= i < num_classes ==> #[trigger] m.class_names_spec()[i] == class_name(
                    i as nat,
                ),
    {
        let mut class_names: Vec<String> = Vec::new();
        let mut i: usize = 0;
        while i < num_classes
            invariant
                i <= num_classes,
                class_names@.len() == i,
                forall|j: int| 0 <= j < i ==> #[trigger] class_names@[j]@ == class_name(j as nat),
            decreases num_classes - i,
        {
            class_names.push(class_label(i));
            i = i + 1;
        }
        let m = CNNModel { input_size, num_classes, class_names };
        assert forall|j: int| 0 <= j < num_classes implies #[trigger] m.class_names_spec()[j]
            == class_name(j as nat) by {
            assert(m.class_names_spec()[j] == class_names@[j]@);
        }
        Ok(m)
    }

    /// Create a model with a specific architecture; every architecture gives the same
    /// model as `new`.
    pub fn with_architecture(input_size: u32, num_classes: usize, arch: ModelArchitecture) -> (r:
        Result<Self, anyhow::Error>)
        ensures
            r matches Ok(m) && m.input_size_spec() == input_size && m.num_classes_spec()
                == num_classes && m.class_names_spec().len() == num_classes && forall|i: int|
                0 <= i < num_classes ==> #[trigger] m.class_names_spec()[i] == class_name(
                    i as nat,
                ),
    {
        Self::new(input_size, num_classes)
    }

    /// The side of the square images the model takes.
    pub fn input_size(&self) -> (n: u32)
        ensures
            n == self.input_size_spec(),
    {
        self.input_size
    }

    /// The number of classes.
    pub fn num_classes(&self) -> (n: usize)
        ensures
            n == self.num_classes_spec(),
    {
        self.num_classes
    }

    /// The name of class `i`.
    pub fn class_name(&self, i: usize) -> (s: &String)
        requires
            i < self.num_classes_spec(),
        ensures
            s@ == self.class_names_spec()[i as int],
    {
        proof {
            use_type_invariant(self);
        }
        &self.class_names[i]
    }

    /// Get model information.
    pub fn info(&self) -> (info: ModelInfo)
        requires
            self.input_size_spec() * self.input_size_spec() <= u32::MAX,
            estimated_flops(self.input_size_spec(), self.num_classes_spec()) <= usize::MAX,
        ensures
            info.input_size == self.input_size_spec(),
            info.num_classes == self.num_classes_spec(),
            info.estimated_params == estimated_parameters(
                self.input_size_spec(),
                self.num_classes_spec(),
            ),
            info.estimated_flops == estimated_flops(self.input_size_spec(), self.num_classes_spec()),
    {
        ModelInfo {
            input_size: self.input_size,
            num_classes: self.num_classes,
            estimated_params: self.estimate_parameters(),
            estimated_flops: self.estimate_flops(),
        }
    }

    /// Estimate the number of parameters.
    fn estimate_parameters(&self) -> (n: usize)
        requires
            self.input_size_spec() * self.input_size_spec() <= u32::MAX,
            estimated_flops(self.input_size_spec(), self.num_classes_spec()) <= usize::MAX,
        ensures
            n == estimated_parameters(self.input_size_spec(), self.num_classes_spec()),
    {
        let sq = self.input_size * self.input_size;
        let c = self.num_classes;
        assert(sq as int * 512 + 512 * c <= sq as int * 512 * 9 + 512 * c);
        let conv_params = (sq as usize) * 512;
        let fc_params = 512 * c;
        conv_params + fc_params
    }

    /// Estimate the FLOPs per inference.
    fn estimate_flops(&self) -> (n: usize)
        requires
            self.input_size_spec() * self.input_size_spec() <= u32::MAX,
            estimated_flops(self.input_size_spec(), self.num_classes_spec()) <= usize::MAX,
        ensures
            n == estimated_flops(self.input_size_spec(), self.num_classes_spec()),
    {
        let sq = self.input_size * self.input_size;
        let c = self.num_classes;
        let conv_flops = (sq as usize) * 512 * 9;
        let fc_flops = 512 * c;
        conv_flops + fc_flops
    }
}

/// The memory of an image in KiB, `width·height·channels·4 / 1024` (four bytes per
/// pixel value), computed without intermediate overflow.
fn image_kib(width: u32, height: u32, channels: u32) -> (n: u128)
    ensures
        n == width * height * channels * 4 / 1024,
{
    let w = width as u128;
    let h = height as u128;
    let c = channels as u128;
    assert(w * h <= 0xffff_ffff_ffff_ffff) by (nonlinear_arith)
        requires
            w <= 0xffff_ffff,
            h <= 0xffff_ffff,
    ;
    let wh = w * h;
    assert(wh * c <= 0x1_0000_0000_0000_0000_0000_0000int) by (nonlinear_arith)
        requires
            wh <= 0xffff_ffff_ffff_ffff,
            c <= 0xffff_ffff,
    ;
    let bytes = wh * c * 4;
    bytes / 1024
}

/// The batch size of an image request: its memory in KiB, `width·height·channels·4 / 1024`
/// (four bytes per pixel value), computed without intermediate overflow.
pub fn image_batch_size(width: u32, height: u32, channels: u32) -> (n: usize)
    requires
        width * height * channels * 4 / 1024 <= usize::MAX,
    ensures
        n == width * height * channels * 4 / 1024,
{
    image_kib(width, height, channels) as usize
}

/// Image request for neural network inference: an identifier, the normalised pixel
/// data, and the image's dimensions.
#[derive(Debug, Clone)]
pub struct ImageRequest<D> {
    pub id: u64,
    pub image_data: D,
    pub width: u32,
    pub height: u32,
    pub channels: u32,
}

impl<D: Clone> Batchable for ImageRequest<D> {
    /// The memory of the request in KiB.
    open spec fn spec_batch_size(&self) -> nat {
        (self.width * self.height * self.channels * 4 / 1024) as nat
    }

    fn batch_size(&self) -> (n: usize) {
        image_batch_size(self.width, self.height, self.channels)
    }

    fn checked_batch_size(&self) -> (r: Option<usize>) {
        let kib = image_kib(self.width, self.height, self.channels);
        if kib <= usize::MAX as u128 {
            Some(kib as usize)
        } else {
            None
        }
    }
}

} // verus!
