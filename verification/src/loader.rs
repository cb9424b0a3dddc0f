//! Module discovery: the platform-specific file a capability module lives
//! in, and the fatal message when it is missing. The dynamic loading itself
//! happens in the unverified shell; these decisions are what it follows.

use vstd::prelude::*;

verus! {

use crate::options::Platform;

/// The two capabilities a module can provide.
#[derive(Clone, Copy, PartialEq, Eq, Structural)]
pub enum ModuleKind {
    Generator,
    Render,
}

/// The path of a module's shared library, relative to the executable's
/// directory, under the platform's naming convention.
pub open spec fn library_path(kind: ModuleKind, platform: Platform) -> Seq<char> {
    match kind {
        ModuleKind::Generator => match platform {
            Platform::Linux => "modules/libgenerator.so"@,
            Platform::Windows => "modules/generator.dll"@,
            Platform::MacOs => "modules/libgenerator.dylib"@,
        },
        ModuleKind::Render => match platform {
            Platform::Linux => "modules/librender.so"@,
            Platform::Windows => "modules/render.dll"@,
            Platform::MacOs => "modules/librender.dylib"@,
        },
    }
}

/// The relative path the loader must try for a module.
pub fn module_file_name(kind: ModuleKind, platform: Platform) -> (r: &'static str)
    ensures
        r@ == library_path(kind, platform),
{
    match kind {
        ModuleKind::Generator => match platform {
            Platform::Linux => "modules/libgenerator.so",
            Platform::Windows => "modules/generator.dll",
            Platform::MacOs => "modules/libgenerator.dylib",
        },
        ModuleKind::Render => match platform {
            Platform::Linux => "modules/librender.so",
            Platform::Windows => "modules/render.dll",
            Platform::MacOs => "modules/librender.dylib",
        },
    }
}

/// What the missing-module error says after the path.
pub open spec fn missing_module_note(kind: ModuleKind) -> Seq<char> {
    match kind {
        ModuleKind::Generator => " does not exist. Please compile the generator module first."@,
        ModuleKind::Render => " does not exist. Please compile the render module first."@,
    }
}

/// The fatal message shown when a module's file is absent, telling the
/// user to build that module.
pub fn missing_module_message(path: &String, kind: ModuleKind) -> (r: String)
    ensures
        r@ == path@ + missing_module_note(kind),
{
    let mut out = path.clone();
    match kind {
        ModuleKind::Generator => {
            out.append(" does not exist. Please compile the generator module first.");
        },
        ModuleKind::Render => {
            out.append(" does not exist. Please compile the render module first.");
        },
    }
    out
}

} // verus!
