//! The bookkeeping of a shader: its label and its uniforms, found by label, and
//! the builder that collects them.
use vstd::prelude::*;
use crate::errors::{ErrorIdentificator, GeneralError, ShaderBuilderError};

verus! {

/// One bind group of a shader: a uniform with its buffer, or a texture, which
/// has none.
#[derive(Clone, Copy, Debug)]
pub struct ShaderUniform {
    pub label: &'static str,
    pub has_buffer: bool,
}

/// A built shader.
#[derive(Debug)]
pub struct Shader {
    pub label: &'static str,
    pub uniforms: Vec<ShaderUniform>,
}

/// Collects what a shader is built from.
pub struct ShaderBuilder {
    label: &'static str,
    uniforms: Vec<ShaderUniform>,
    loaded: bool,
}

/// The position of the first uniform labelled `label`, or the number of
/// uniforms if there is none.
pub open spec fn first_labelled(uniforms: Seq<ShaderUniform>, label: Seq<char>) -> int
    decreases uniforms.len(),
{
    if uniforms.len() == 0 {
        0
    } else if uniforms[0].label@ == label {
        0
    } else {
        1 + first_labelled(uniforms.drop_first(), label)
    }
}

/// The first uniform labelled `label` is where `first_labelled` says, and no
/// uniform before it has that label.
pub proof fn lemma_first_labelled(uniforms: Seq<ShaderUniform>, label: Seq<char>)
    ensures
        0 <= first_labelled(uniforms, label) <= uniforms.len(),
        first_labelled(uniforms, label) < uniforms.len() ==> uniforms[first_labelled(
            uniforms,
            label,
        )].label@ == label,
        forall|i: int| 0 <= i < first_labelled(uniforms, label) ==> (#[trigger] uniforms[i]).label@ != label,
    decreases uniforms.len(),
{
    if uniforms.len() > 0 && uniforms[0].label@ != label {
        let rest = uniforms.drop_first();
        lemma_first_labelled(rest, label);
        assert forall|i: int| 0 <= i < first_labelled(uniforms, label) implies (#[trigger] uniforms[i]).label@
            != label by {
            if i > 0 {
                assert(uniforms[i] == rest[i - 1]);
            }
        }
    }
}

/// Whether two strings hold the same text.
fn same_text(a: &str, b: &str) -> (r: bool)
    ensures
        r == (a@ == b@),
{
    a.to_owned() == b.to_owned()
}

/// The position of the first uniform labelled `label`.
fn find_labelled(uniforms: &Vec<ShaderUniform>, label: &str) -> (r: usize)
    ensures
        r == first_labelled(uniforms@, label@),
{
    let mut i: usize = 0;
    proof {
        assert(uniforms@.skip(0) =~= uniforms@);
    }
    while i < uniforms.len()
        invariant
            i <= uniforms.len(),
            first_labelled(uniforms@, label@) == i + first_labelled(uniforms@.skip(i as int), label@),
        decreases uniforms.len() - i,
    {
        proof {
            assert(uniforms@.skip(i as int)[0] == uniforms@[i as int]);
            assert(uniforms@.skip(i as int).drop_first() =~= uniforms@.skip(i + 1));
        }
        if same_text(uniforms[i].label, label) {
            return i;
        }
        i += 1;
    }
    i
}

impl Shader {
    /// The position of the first uniform labelled `label`; without one, the
    /// error names this call and the label.
    pub fn get_uniform(&self, label: &'static str) -> (r: Result<usize, GeneralError>)
        ensures
            match r {
                Ok(i) => i == first_labelled(self.uniforms@, label@) && i < self.uniforms@.len(),
                Err(GeneralError::NotFound(id)) => first_labelled(self.uniforms@, label@)
                    == self.uniforms@.len() && id.fn_call@ == "Shader::get_uniform"@ && id.arg@
                    == label@,
            },
    {
        proof {
            lemma_first_labelled(self.uniforms@, label@);
        }
        let i = find_labelled(&self.uniforms, label);
        if i < self.uniforms.len() {
            Ok(i)
        } else {
            Err(GeneralError::NotFound(ErrorIdentificator { fn_call: "Shader::get_uniform", arg: label }))
        }
    }

    /// The position of the first uniform labelled `label`, if there is one and
    /// it has a buffer.
    pub fn get_uniform_buffer(&self, label: &str) -> (r: Option<usize>)
        ensures
            match r {
                Some(i) => i == first_labelled(self.uniforms@, label@) && i < self.uniforms@.len()
                    && self.uniforms@[i as int].has_buffer,
                None => first_labelled(self.uniforms@, label@) == self.uniforms@.len()
                    || !self.uniforms@[first_labelled(self.uniforms@, label@)].has_buffer,
            },
    {
        proof {
            lemma_first_labelled(self.uniforms@, label@);
        }
        let i = find_labelled(&self.uniforms, label);
        if i < self.uniforms.len() && self.uniforms[i].has_buffer {
            Some(i)
        } else {
            None
        }
    }
}

impl ShaderBuilder {
    /// The label collected so far.
    pub closed spec fn spec_label(&self) -> Seq<char> {
        self.label@
    }

    /// The uniforms collected so far, in the order of their bind groups.
    pub closed spec fn uniforms(&self) -> Seq<ShaderUniform> {
        self.uniforms@
    }

    /// Whether a shader source was loaded.
    pub closed spec fn loaded(&self) -> bool {
        self.loaded
    }

    /// A builder with an empty label, no uniforms and no shader source.
    pub fn new() -> (r: ShaderBuilder)
        ensures
            r.spec_label() == ""@,
            r.uniforms() == Seq::<ShaderUniform>::empty(),
            !r.loaded(),
    {
        ShaderBuilder { label: "", uniforms: Vec::new(), loaded: false }
    }

    /// Notes that the shader source of `file_name` was loaded; the file's name
    /// becomes the label.
    pub fn load_shader(self, file_name: &'static str) -> (r: ShaderBuilder)
        ensures
            r.spec_label() == file_name@,
            r.uniforms() == self.uniforms(),
            r.loaded(),
    {
        ShaderBuilder { label: file_name, uniforms: self.uniforms, loaded: true }
    }

    /// Adds a uniform with a buffer as the next bind group.
    pub fn add_uniform(self, label: &'static str) -> (r: ShaderBuilder)
        ensures
            r.spec_label() == self.spec_label(),
            r.loaded() == self.loaded(),
            r.uniforms() == self.uniforms().push(ShaderUniform { label, has_buffer: true }),
    {
        let mut builder = self;
        builder.uniforms.push(ShaderUniform { label, has_buffer: true });
        builder
    }

    /// Adds a texture, which has no buffer, as the next bind group.
    pub fn add_texture(self, label: &'static str) -> (r: ShaderBuilder)
        ensures
            r.spec_label() == self.spec_label(),
            r.loaded() == self.loaded(),
            r.uniforms() == self.uniforms().push(ShaderUniform { label, has_buffer: false }),
    {
        let mut builder = self;
        builder.uniforms.push(ShaderUniform { label, has_buffer: false });
        builder
    }

    /// Builds the shader. Without a loaded shader source there is nothing to
    /// build.
    pub fn build(self) -> (r: Result<Shader, ShaderBuilderError>)
        ensures
            match r {
                Ok(shader) => self.loaded() && shader.label@ == self.spec_label() && shader.uniforms@
                    == self.uniforms(),
                Err(e) => !self.loaded() && e == ShaderBuilderError::ShaderNotLoaded,
            },
    {
        if self.loaded {
            Ok(Shader { label: self.label, uniforms: self.uniforms })
        } else {
            Err(ShaderBuilderError::ShaderNotLoaded)
        }
    }
}

} // verus!
