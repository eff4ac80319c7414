use vstd::prelude::*;
use vstd::string::StringExecFns;

verus! {

/// Everything that can go wrong while exporting an image.
#[derive(Clone, Debug, PartialEq, Eq)]
pub enum ExportError {
    /// The source could not be read or decoded; carries the decoder's words.
    LoadFailed(String),
    /// The crop rectangle has no area.
    InvalidCrop,
    /// The crop rectangle reaches beyond the source image.
    CropOutOfBounds,
    /// The image handed to the mask has no pixels.
    InvalidGeometry,
    /// The inset leaves nothing of the image.
    InsetTooLarge,
    /// The target size has a zero side.
    InvalidTargetSize,
    /// The image or the target is too large for the resampling.
    ResizeTooLarge,
    /// A directory above the destination could not be created.
    DirectoryCreateFailed(String),
    /// The image could not be encoded or written.
    WriteFailed(String),
    /// The naming mode is not one of the known ones.
    InvalidConfig,
    /// The run was stopped on request.
    Cancelled,
}

impl ExportError {
    /// The text shown to the user for this error.
    pub open spec fn message_spec(self) -> Seq<char> {
        match self {
            ExportError::LoadFailed(detail) => "Load failed: "@ + detail@,
            ExportError::InvalidCrop => "Crop size must be greater than zero."@,
            ExportError::CropOutOfBounds => "Crop rectangle is out of bounds."@,
            ExportError::InvalidGeometry => "Image has invalid dimensions."@,
            ExportError::InsetTooLarge => "Inset is too large for the crop size."@,
            ExportError::InvalidTargetSize => "Target size must be greater than zero."@,
            ExportError::ResizeTooLarge => "Image is too large to resize."@,
            ExportError::DirectoryCreateFailed(detail) => "Create folder failed: "@ + detail@,
            ExportError::WriteFailed(detail) => "Write failed: "@ + detail@,
            ExportError::InvalidConfig => "Invalid filename mode."@,
            ExportError::Cancelled => "Export cancelled."@,
        }
    }

    /// Renders the error as the text shown to the user.
    pub fn message(&self) -> (text: String)
        ensures
            text@ == self.message_spec(),
    {
        match self {
            ExportError::LoadFailed(detail) => {
                String::from_str("Load failed: ").concat(detail.as_str())
            },
            ExportError::InvalidCrop => String::from_str("Crop size must be greater than zero."),
            ExportError::CropOutOfBounds => String::from_str("Crop rectangle is out of bounds."),
            ExportError::InvalidGeometry => String::from_str("Image has invalid dimensions."),
            ExportError::InsetTooLarge => String::from_str("Inset is too large for the crop size."),
            ExportError::InvalidTargetSize => String::from_str(
                "Target size must be greater than zero.",
            ),
            ExportError::ResizeTooLarge => String::from_str("Image is too large to resize."),
            ExportError::DirectoryCreateFailed(detail) => {
                String::from_str("Create folder failed: ").concat(detail.as_str())
            },
            ExportError::WriteFailed(detail) => {
                String::from_str("Write failed: ").concat(detail.as_str())
            },
            ExportError::InvalidConfig => String::from_str("Invalid filename mode."),
            ExportError::Cancelled => String::from_str("Export cancelled."),
        }
    }
}

} // verus!
