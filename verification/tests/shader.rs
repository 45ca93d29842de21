use probable_spork::errors::{GeneralError, ShaderBuilderError};
use probable_spork::shader::ShaderBuilder;

#[test]
fn shader_is_not_built_before_it_is_loaded() {
    let builder = ShaderBuilder::new().add_uniform("camera_uniform");
    assert_eq!(builder.build().err(), Some(ShaderBuilderError::ShaderNotLoaded));
}

#[test]
fn built_shader_has_the_label_and_the_uniforms_in_order() {
    let shader = ShaderBuilder::new()
        .load_shader("shader.wgsl")
        .add_texture("diffuse")
        .add_uniform("camera_uniform")
        .build()
        .unwrap();
    assert_eq!(shader.label, "shader.wgsl");
    assert_eq!(shader.uniforms.len(), 2);
    assert_eq!(shader.uniforms[0].label, "diffuse");
    assert!(!shader.uniforms[0].has_buffer);
    assert_eq!(shader.uniforms[1].label, "camera_uniform");
    assert!(shader.uniforms[1].has_buffer);
}

#[test]
fn uniforms_are_found_by_label() {
    let shader = ShaderBuilder::new()
        .load_shader("shader.wgsl")
        .add_texture("diffuse")
        .add_uniform("camera_uniform")
        .add_uniform("diffuse")
        .build()
        .unwrap();
    assert!(matches!(shader.get_uniform("diffuse"), Ok(0)));
    assert!(matches!(shader.get_uniform("camera_uniform"), Ok(1)));
    assert_eq!(shader.get_uniform_buffer("camera_uniform"), Some(1));
    assert_eq!(shader.get_uniform_buffer("diffuse"), None);
    assert_eq!(shader.get_uniform_buffer("light"), None);
}

#[test]
fn missing_uniform_names_the_call_and_the_label() {
    let shader = ShaderBuilder::new().load_shader("shader.wgsl").build().unwrap();
    match shader.get_uniform("light") {
        Err(GeneralError::NotFound(id)) => {
            assert_eq!(id.fn_call, "Shader::get_uniform");
            assert_eq!(id.arg, "light");
        }
        Ok(i) => panic!("found at {}", i),
    }
    let e = shader.get_uniform("light").err().unwrap();
    assert_eq!(e.message(), "General not found (Shader::get_uniform:light)");
}
