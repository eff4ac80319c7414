use crate::error::ExportError;
use vstd::prelude::*;
use vstd::string::StringExecFns;

verus! {

/// How an exported file is named after its source.
#[derive(Clone, Copy, Debug, PartialEq, Eq, Structural)]
pub enum NamingMode {
    /// The source's stem, unchanged.
    Identity,
    /// The source's stem followed by `_cropped`.
    CroppedSuffix,
}

impl NamingMode {
    /// The mode that a name stands for, if it stands for one.
    pub open spec fn parse_spec(name: Seq<char>) -> Result<NamingMode, ExportError> {
        if name == "ui"@ {
            Ok(NamingMode::Identity)
        } else if name == "cropped"@ {
            Ok(NamingMode::CroppedSuffix)
        } else {
            Err(ExportError::InvalidConfig)
        }
    }

    /// What the mode puts behind the stem.
    pub open spec fn suffix_spec(self) -> Seq<char> {
        match self {
            NamingMode::Identity => ""@,
            NamingMode::CroppedSuffix => "_cropped"@,
        }
    }

    /// Reads a mode from its name: `ui` keeps the stem as it is, `cropped`
    /// adds the suffix, and any other name is refused.
    pub fn parse(name: &str) -> (mode: Result<NamingMode, ExportError>)
        ensures
            mode == NamingMode::parse_spec(name@),
    {
        let given = String::from_str(name);
        if given == String::from_str("ui") {
            Ok(NamingMode::Identity)
        } else if given == String::from_str("cropped") {
            Ok(NamingMode::CroppedSuffix)
        } else {
            Err(ExportError::InvalidConfig)
        }
    }

    /// What the mode puts behind the stem.
    pub fn suffix(&self) -> (text: &'static str)
        ensures
            text@ == self.suffix_spec(),
    {
        match self {
            NamingMode::Identity => "",
            NamingMode::CroppedSuffix => "_cropped",
        }
    }
}

/// The stem of the file that a path leads to, as `std::path::Path::file_stem`
/// reads it from the path's text: the last part of the path without its
/// extension, where the path has a last part.
pub uninterp spec fn path_stem(path: Seq<char>) -> Option<Seq<char>>;

/// Calls `std::path::Path::file_stem` on the text taken as a path, and hands
/// the stem back as text. Believed of it: the result depends on the text
/// alone. How a path falls into parts is the platform's matter, and nothing
/// is claimed of it.
#[verifier::external_body]
fn file_stem_of(path: &str) -> (stem: Option<String>)
    ensures
        (match stem {
            Some(text) => Some(text@),
            None => None,
        }) == path_stem(path@),
{
    match std::path::Path::new(path).file_stem() {
        Some(stem) => match stem.to_str() {
            Some(text) => Some(text.to_string()),
            None => None,
        },
        None => None,
    }
}

/// The name of the file that an export is written to: the stem of the
/// source, or `image` where it has none, then the mode's suffix, then the
/// extension `.png`.
pub open spec fn output_name_spec(stem: Option<Seq<char>>, mode: NamingMode) -> Seq<char> {
    (match stem {
        Some(text) => text,
        None => "image"@,
    }) + mode.suffix_spec() + ".png"@
}

/// Names the file that an export is written to, from the stem of its source.
pub fn output_name(stem: Option<&str>, mode: NamingMode) -> (file_name: String)
    ensures
        file_name@ == output_name_spec(
            match stem {
                Some(text) => Some(text@),
                None => None,
            },
            mode,
        ),
{
    let mut file_name = match stem {
        Some(text) => String::from_str(text),
        None => String::from_str("image"),
    };
    file_name.append(mode.suffix());
    file_name.append(".png");
    file_name
}

/// Names the file that the export of the source at `path` is written to.
pub fn output_name_for(path: &str, mode: NamingMode) -> (file_name: String)
    ensures
        file_name@ == output_name_spec(path_stem(path@), mode),
{
    match file_stem_of(path) {
        Some(stem) => output_name(Some(stem.as_str()), mode),
        None => output_name(None, mode),
    }
}

} // verus!
