use sound_shader::binder::{
    assemble_program, asset_group_slots, base_group_slots, build_sound_program, BindingKind,
    BindingSlot,
};

const PREFIX: &str = "#version 450\nlayout(local_size_x = 1) in;\n\nlayout(set = 0, binding = 0) buffer OutputStorage {\n\tvec2[] output;\n};\n\nlayout(set = 0, binding = 1) uniform DeviceInfo {\n\tuint iSampleRate;\n\tuint iBaseFrame;\n};\n";

const SUFFIX: &str = "\nvoid main() {\n\tuint idx = gl_GlobalInvocationID.x;\n\tuint frame = iBaseFrame + idx;\n\toutput[idx] = mainSound(idx, float(frame) / float(iSampleRate));\n}\n";

fn binding_block(idx: usize) -> String {
    format!(
        "layout(set = 1, binding = {}) buffer AudioTexture{} {{\n\tvec4[] iAudioTexture{1};\n}};\nlayout(set = 1, binding = {}) uniform AudioTextureInfo{1} {{\n\tuint iChannelSampleRate{1};\n\tuint channels{1};\n}};\n\t",
        idx * 2,
        idx,
        idx * 2 + 1
    )
}

fn fetch_block(idx: usize) -> String {
    format!(
        "vec2 soundTexture{}(float time) {{\n\tfloat t = time - float(iBaseFrame) / float(iSampleRate);\n\tuint idx = uint(float(iChannelSampleRate{0}) * t);\n\tfloat p = fract(float(iChannelSampleRate{0}) * t);\n\treturn iAudioTexture{0}[idx].xy * (1.0 - p) + iAudioTexture{0}[idx + 1].xy * p;\n}}\nvec2 soundTexelFetch{0}(uint idx) {{\n\tuint baseIdx = iChannelSampleRate{0} * (iBaseFrame / iSampleRate);\n\treturn iAudioTexture{0}[idx - baseIdx].xy;\n}}\nvec2 soundDFTFetch{0}(uint idx) {{\n\tuint baseIdx = iChannelSampleRate{0} * (iBaseFrame / iSampleRate);\n\treturn iAudioTexture{0}[idx - baseIdx].zw;\n}}\n",
        idx
    )
}

#[test]
fn program_text_no_assets() {
    let body = "vec2 mainSound(uint samp, float time) { return vec2(0.0, 0.0); }";
    let got = assemble_program(body, 0);
    let want = format!("{}{}{}", PREFIX, body, SUFFIX);
    assert_eq!(got, want);
}

#[test]
fn program_text_two_assets() {
    let body = "vec2 mainSound(uint samp, float time) { return soundTexture0(time) + soundTexture1(time); }";
    let got = assemble_program(body, 2);
    let want = format!(
        "{}{}{}{}{}{}{}",
        PREFIX,
        binding_block(0),
        binding_block(1),
        fetch_block(0),
        fetch_block(1),
        body,
        SUFFIX
    );
    assert_eq!(got, want);
}

#[test]
fn program_text_eleven_assets_has_two_digit_bindings() {
    // Asset 10 owns storage binding 20 and uniform binding 21.
    let got = assemble_program("", 11);
    assert!(got.contains("layout(set = 1, binding = 20) buffer AudioTexture10 {"));
    assert!(got.contains("layout(set = 1, binding = 21) uniform AudioTextureInfo10 {"));
    assert!(got.contains("vec2 soundTexture10(float time) {"));
}

#[test]
fn base_layout() {
    let slots = base_group_slots();
    assert_eq!(slots.len(), 2);
    assert_eq!(slots[0], BindingSlot { binding: 0, kind: BindingKind::Storage });
    assert_eq!(slots[1], BindingSlot { binding: 1, kind: BindingKind::Uniform });
}

#[test]
fn asset_layout_interleaves_storage_and_uniform() {
    let slots = asset_group_slots(3);
    assert_eq!(slots.len(), 6);
    for i in 0..3usize {
        assert_eq!(
            slots[2 * i],
            BindingSlot { binding: (2 * i) as u32, kind: BindingKind::Storage }
        );
        assert_eq!(
            slots[2 * i + 1],
            BindingSlot { binding: (2 * i + 1) as u32, kind: BindingKind::Uniform }
        );
    }
}

#[test]
fn glsl_to_wgsl_test() {
    let body = "vec2 mainSound(uint samp, float time) { return vec2(sin(time), cos(time)); }";
    let program = build_sound_program(body, 0).unwrap();
    assert_eq!(program.glsl, format!("{}{}{}", PREFIX, body, SUFFIX));
    // The translation is real work, not the GLSL handed back.
    assert_ne!(program.wgsl, program.glsl);
    assert!(program.wgsl.contains("fn main"));
    assert!(!program.wgsl.contains("#version"));
}

#[test]
fn bad_shader_reports_diagnostic() {
    let r = build_sound_program("vec2 mainSound(uint samp, float time) { return 3 }", 0);
    match r {
        Err(diag) => assert!(
            diag.starts_with("GLSL Parse Error: ")
                || diag.starts_with("GLSL Validation Error: ")
                || diag.starts_with("WGSL write error: "),
            "diagnostic does not name the failing step: {}",
            diag
        ),
        Ok(_) => panic!("expected a diagnostic"),
    }
}
