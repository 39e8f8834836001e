//! Normalized build options: the slice of configuration the core
//! reads. Option normalization itself happens at the caller's edge;
//! the core receives the finished values.

use vstd::prelude::*;

verus! {

/// The output flavor of a build.
#[derive(Clone, Copy, PartialEq, Eq, Structural, Debug)]
pub enum OutputFormat {
    /// One flat ESM chunk.
    Esm,
    /// One flat CommonJS chunk.
    Cjs,
    /// The registry-driven application format, with each module behind
    /// a factory function.
    App,
}

/// The target platform, which picks the runtime helper flavor.
#[derive(Clone, Copy, PartialEq, Eq, Structural, Debug)]
pub enum Platform {
    Node,
    Browser,
    Neutral,
}

/// How a sourcemap is emitted beside a chunk.
#[derive(Clone, Copy, PartialEq, Eq, Structural, Debug)]
pub enum SourceMapType {
    File,
    Inline,
    Hidden,
}

/// The configured default for modules without their own side-effect
/// verdict.
#[derive(Clone, Copy, PartialEq, Eq, Structural, Debug)]
pub enum ModuleSideEffectsOption {
    Boolean(bool),
}

/// Tree-shaking configuration: a plain switch, or options with a
/// per-module side-effect default.
#[derive(Clone, Copy, PartialEq, Eq, Structural, Debug)]
pub enum TreeshakeOptions {
    Boolean(bool),
    Option(ModuleSideEffectsOption),
}

/// The normalized options a build runs under.
#[derive(Clone, PartialEq, Eq, Debug)]
pub struct NormalizedBundlerOptions {
    pub format: OutputFormat,
    pub platform: Platform,
    pub sourcemap: Option<SourceMapType>,
    pub treeshake: TreeshakeOptions,
    pub cwd: String,
    pub dir: String,
    /// Whether an unresolved named import is a fatal link error rather
    /// than a warning that leaves the reference undefined-like.
    pub strict_missing_exports: bool,
    /// Global replacements, handed to the transformer: each key must
    /// be a legal identifier.
    pub define: Vec<(String, String)>,
}

impl NormalizedBundlerOptions {
    /// Whether the build emits flat ESM for the Node platform, which
    /// selects the Node flavor of the runtime helpers.
    pub fn is_esm_format_with_node_platform(&self) -> (r: bool)
        ensures
            r == (self.format == OutputFormat::Esm && self.platform == Platform::Node),
    {
        match (self.format, self.platform) {
            (OutputFormat::Esm, Platform::Node) => true,
            _ => false,
        }
    }
}


impl Default for NormalizedBundlerOptions {
    /// The defaults a bare build runs under: a flat ESM chunk for a
    /// neutral platform, tree-shaking on with side-effect analysis,
    /// lenient missing-export resolution, and no global replacements.
    fn default() -> (r: NormalizedBundlerOptions)
        ensures
            r.format == OutputFormat::Esm,
            r.platform == Platform::Neutral,
            r.sourcemap is None,
            r.treeshake == TreeshakeOptions::Option(ModuleSideEffectsOption::Boolean(true)),
            r.cwd@.len() == 0,
            r.dir@.len() == 0,
            !r.strict_missing_exports,
            r.define@.len() == 0,
    {
        NormalizedBundlerOptions {
            format: OutputFormat::Esm,
            platform: Platform::Neutral,
            sourcemap: None,
            treeshake: TreeshakeOptions::Option(ModuleSideEffectsOption::Boolean(true)),
            cwd: String::new(),
            dir: String::new(),
            strict_missing_exports: false,
            define: Vec::new(),
        }
    }
}

} // verus!
