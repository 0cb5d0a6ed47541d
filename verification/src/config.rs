//! Runtime settings for the conversion front end.
//!
//! Configuration loading from files or the environment is a concern of the
//! surrounding program; the library only fixes the shape of the settings
//! and their defaults.

use vstd::prelude::*;

verus! {

/// The output forms a notebook can be rendered to.
#[derive(Debug, Clone, Copy, PartialEq, Eq, Structural)]
pub enum OutputFormat {
    Markdown,
    JSON,
    SVG,
    Debug,
    Bytes,
}

/// Settings of the markdown renderer.
#[derive(Debug, Clone, Copy, PartialEq, Eq, Structural)]
pub struct MarkdownCfg {}

/// Settings of the SVG renderer.
#[derive(Debug, Clone, Copy, PartialEq, Eq, Structural)]
pub struct SvgCfg {}

/// Settings of the debug renderer.
#[derive(Debug, Clone, Copy, PartialEq, Eq, Structural)]
pub struct DebugCfg {}

/// Settings of the raw-bytes renderer.
#[derive(Debug, Clone, Copy, PartialEq, Eq, Structural)]
pub struct BytesCfg {}

/// Settings of the JSON renderer.
#[derive(Debug, Clone, Copy, PartialEq, Eq, Structural)]
pub struct JsonCfg {}

/// The per-renderer settings and the default output form.
#[derive(Debug, Clone, Copy, PartialEq, Eq, Structural)]
pub struct OutputCfg {
    pub default: OutputFormat,
    pub markdown: MarkdownCfg,
    pub svg: SvgCfg,
    pub debug: DebugCfg,
    pub bytes: BytesCfg,
    pub json: JsonCfg,
}

/// All settings: the output configuration and the tablet data directory.
#[derive(Debug, Clone, PartialEq)]
pub struct Settings {
    pub output: OutputCfg,
    pub rm_path: String,
}

impl Settings {
    /// The defaults: markdown output and no data directory.
    pub fn empty() -> (r: Settings)
        ensures
            r.output.default == OutputFormat::Markdown,
            r.rm_path@ == Seq::<char>::empty(),
    {
        let rm_path = String::new();
        Settings {
            output: OutputCfg {
                default: OutputFormat::Markdown,
                markdown: MarkdownCfg {  },
                svg: SvgCfg {  },
                debug: DebugCfg {  },
                bytes: BytesCfg {  },
                json: JsonCfg {  },
            },
            rm_path,
        }
    }

    /// Builds the settings; with no configuration source wired up this is
    /// always the defaults, and always succeeds.
    pub fn new() -> (r: Result<Settings, crate::types::RMError>)
        ensures
            r matches Ok(s) && s.output.default == OutputFormat::Markdown && s.rm_path@
                == Seq::<char>::empty(),
    {
        Ok(Settings::empty())
    }
}

} // verus!
