//! The error values of the engine and the messages they are shown with.
use vstd::prelude::*;
use vstd::string::StringExecFns;

verus! {

/// Names the call that failed and the argument it failed on.
#[derive(Debug)]
pub struct ErrorIdentificator {
    pub fn_call: &'static str,
    pub arg: &'static str,
}

/// Something that was looked for is not there.
#[derive(Debug)]
pub enum GeneralError {
    NotFound(ErrorIdentificator),
}

/// Why a mesh could not take what it was given.
#[derive(Clone, Copy, PartialEq, Eq, Structural, Debug)]
pub enum MeshRendererError {
    InstanceNotFound,
}

/// Why a shader could not be built.
#[derive(Clone, Copy, PartialEq, Eq, Structural, Debug)]
pub enum ShaderBuilderError {
    ShaderNotLoaded,
}

/// The text of a "not found" message for a call and its argument.
pub open spec fn not_found_text(fn_call: Seq<char>, arg: Seq<char>) -> Seq<char> {
    "General not found ("@ + fn_call + ":"@ + arg + ")"@
}

impl GeneralError {
    /// The message of the error.
    pub fn message(&self) -> (s: String)
        ensures
            match self {
                GeneralError::NotFound(id) => s@ == not_found_text(id.fn_call@, id.arg@),
            },
    {
        match self {
            GeneralError::NotFound(id) => {
                let opening = "General not found (".to_owned();
                opening.concat(id.fn_call).concat(":").concat(id.arg).concat(")")
            },
        }
    }
}

impl MeshRendererError {
    /// The message of the error.
    pub fn message(&self) -> (s: String)
        ensures
            s@ == "Meshes instance wasn't found"@,
    {
        "Meshes instance wasn't found".to_owned()
    }
}

impl ShaderBuilderError {
    /// The message of the error.
    pub fn message(&self) -> (s: String)
        ensures
            s@ == "Shader hasn't been loaded"@,
    {
        "Shader hasn't been loaded".to_owned()
    }
}

} // verus!
