//! The resource binder: a pure, deterministic map from the user's synthesis
//! shader text and an ordered asset count to the complete compute-program
//! text and its resource-binding layout.
//!
//! The program text is a fixed preamble (output storage buffer and
//! device-info uniform in bind group 0), one binding block and three fetch
//! helpers per asset (asset `i` owns storage binding `2i` and uniform binding
//! `2i + 1` in bind group 1), the user's shader body, and a fixed suffix that
//! invokes the user's `mainSound` entry point once per frame and writes its
//! stereo pair to the output buffer.  The GLSL-to-WGSL translation is the one
//! step done by an outside compiler; everything around it is specified to the
//! character.

use vstd::prelude::*;

verus! {

/// The decimal digit `d`, for `d < 10`.
pub open spec fn spec_digit(d: nat) -> char {
    if d == 0 {
        '0'
    } else if d == 1 {
        '1'
    } else if d == 2 {
        '2'
    } else if d == 3 {
        '3'
    } else if d == 4 {
        '4'
    } else if d == 5 {
        '5'
    } else if d == 6 {
        '6'
    } else if d == 7 {
        '7'
    } else if d == 8 {
        '8'
    } else {
        '9'
    }
}

/// The decimal numeral of `n`, most significant digit first, no sign and no
/// leading zero (a single `'0'` for zero).
pub open spec fn spec_dec(n: nat) -> Seq<char>
    decreases n,
{
    if n < 10 {
        seq![spec_digit(n)]
    } else {
        spec_dec(n / 10).push(spec_digit(n % 10))
    }
}

/// The one-character string of decimal digit `d`.
fn digit_str(d: usize) -> (r: &'static str)
    requires
        d < 10,
    ensures
        r@ == seq![spec_digit(d as nat)],
{
    proof {
        reveal_strlit("0");
        reveal_strlit("1");
        reveal_strlit("2");
        reveal_strlit("3");
        reveal_strlit("4");
        reveal_strlit("5");
        reveal_strlit("6");
        reveal_strlit("7");
        reveal_strlit("8");
        reveal_strlit("9");
    }
    let r = match d {
        0 => "0",
        1 => "1",
        2 => "2",
        3 => "3",
        4 => "4",
        5 => "5",
        6 => "6",
        7 => "7",
        8 => "8",
        _ => "9",
    };
    proof {
        assert(r@ =~= seq![spec_digit(d as nat)]);
    }
    r
}

/// Append the decimal numeral of `n` to `s`.
pub fn append_dec(s: &mut String, n: usize)
    ensures
        final(s)@ == old(s)@ + spec_dec(n as nat),
    decreases n,
{
    if n < 10 {
        s.append(digit_str(n));
    } else {
        proof {
            vstd::arithmetic::div_mod::lemma_div_decreases(n as int, 10);
            vstd::arithmetic::div_mod::lemma_div_pos_is_pos(n as int, 10);
        }
        append_dec(s, n / 10);
        s.append(digit_str(n % 10));
        proof {
            assert(final(s)@ =~= old(s)@ + spec_dec(n as nat));
        }
    }
}

/// The fixed preamble: output storage buffer and device-info uniform, bind
/// group 0.
pub open spec fn spec_prefix() -> Seq<char> {
    "#version 450\nlayout(local_size_x = 1) in;\n\nlayout(set = 0, binding = 0) buffer OutputStorage {\n\tvec2[] output;\n};\n\nlayout(set = 0, binding = 1) uniform DeviceInfo {\n\tuint iSampleRate;\n\tuint iBaseFrame;\n};\n"@
}

/// The fixed suffix: one invocation per frame evaluates `mainSound` at the
/// frame's time and writes the stereo pair to the output buffer.
pub open spec fn spec_suffix() -> Seq<char> {
    "\nvoid main() {\n\tuint idx = gl_GlobalInvocationID.x;\n\tuint frame = iBaseFrame + idx;\n\toutput[idx] = mainSound(idx, float(frame) / float(iSampleRate));\n}\n"@
}

/// Binding block of asset `i`: its sample storage buffer at binding `2i` and
/// its `(sample_rate, channel_count)` uniform at binding `2i + 1`, both in
/// bind group 1.
pub open spec fn spec_binding_block(i: nat) -> Seq<char> {
    "layout(set = 1, binding = "@ + spec_dec(2 * i) + ") buffer AudioTexture"@ + spec_dec(i)
        + " {\n\tvec4[] iAudioTexture"@ + spec_dec(i) + ";\n};\nlayout(set = 1, binding = "@
        + spec_dec(2 * i + 1) + ") uniform AudioTextureInfo"@ + spec_dec(i)
        + " {\n\tuint iChannelSampleRate"@ + spec_dec(i) + ";\n\tuint channels"@ + spec_dec(i)
        + ";\n};\n\t"@
}

/// The three generated helpers of asset `i`: the linear-interpolated
/// resampling fetch `soundTextureI(time)`, the raw time-domain fetch
/// `soundTexelFetchI(index)`, and the raw spectral fetch
/// `soundDFTFetchI(index)`.
pub open spec fn spec_fetch_block(i: nat) -> Seq<char> {
    "vec2 soundTexture"@ + spec_dec(i)
        + "(float time) {\n\tfloat t = time - float(iBaseFrame) / float(iSampleRate);\n\tuint idx = uint(float(iChannelSampleRate"@
        + spec_dec(i) + ") * t);\n\tfloat p = fract(float(iChannelSampleRate"@ + spec_dec(i)
        + ") * t);\n\treturn iAudioTexture"@ + spec_dec(i)
        + "[idx].xy * (1.0 - p) + iAudioTexture"@ + spec_dec(i)
        + "[idx + 1].xy * p;\n}\nvec2 soundTexelFetch"@ + spec_dec(i)
        + "(uint idx) {\n\tuint baseIdx = iChannelSampleRate"@ + spec_dec(i)
        + " * (iBaseFrame / iSampleRate);\n\treturn iAudioTexture"@ + spec_dec(i)
        + "[idx - baseIdx].xy;\n}\nvec2 soundDFTFetch"@ + spec_dec(i)
        + "(uint idx) {\n\tuint baseIdx = iChannelSampleRate"@ + spec_dec(i)
        + " * (iBaseFrame / iSampleRate);\n\treturn iAudioTexture"@ + spec_dec(i)
        + "[idx - baseIdx].zw;\n}\n"@
}

/// The binding blocks of assets `0 .. n`, in order.
pub open spec fn spec_binding_blocks(n: nat) -> Seq<char>
    decreases n,
{
    if n == 0 {
        Seq::empty()
    } else {
        spec_binding_blocks((n - 1) as nat) + spec_binding_block((n - 1) as nat)
    }
}

/// The fetch helper blocks of assets `0 .. n`, in order.
pub open spec fn spec_fetch_blocks(n: nat) -> Seq<char>
    decreases n,
{
    if n == 0 {
        Seq::empty()
    } else {
        spec_fetch_blocks((n - 1) as nat) + spec_fetch_block((n - 1) as nat)
    }
}

/// The complete program text for a shader body and `n` bound assets: fixed
/// preamble, all binding blocks, all fetch helpers, the user's shader body,
/// and the fixed suffix.
pub open spec fn spec_program(shader: Seq<char>, n: nat) -> Seq<char> {
    spec_prefix() + spec_binding_blocks(n) + spec_fetch_blocks(n) + shader + spec_suffix()
}

/// Append the binding block of asset `i`.
fn push_binding_block(s: &mut String, i: usize)
    requires
        2 * i + 1 <= usize::MAX,
    ensures
        final(s)@ == old(s)@ + spec_binding_block(i as nat),
{
    s.append("layout(set = 1, binding = ");
    append_dec(s, 2 * i);
    s.append(") buffer AudioTexture");
    append_dec(s, i);
    s.append(" {\n\tvec4[] iAudioTexture");
    append_dec(s, i);
    s.append(";\n};\nlayout(set = 1, binding = ");
    append_dec(s, 2 * i + 1);
    s.append(") uniform AudioTextureInfo");
    append_dec(s, i);
    s.append(" {\n\tuint iChannelSampleRate");
    append_dec(s, i);
    s.append(";\n\tuint channels");
    append_dec(s, i);
    s.append(";\n};\n\t");
    proof {
        assert(final(s)@ =~= old(s)@ + spec_binding_block(i as nat));
    }
}

/// Append the fetch helper block of asset `i`.
fn push_fetch_block(s: &mut String, i: usize)
    ensures
        final(s)@ == old(s)@ + spec_fetch_block(i as nat),
{
    s.append("vec2 soundTexture");
    append_dec(s, i);
    s.append(
        "(float time) {\n\tfloat t = time - float(iBaseFrame) / float(iSampleRate);\n\tuint idx = uint(float(iChannelSampleRate",
    );
    append_dec(s, i);
    s.append(") * t);\n\tfloat p = fract(float(iChannelSampleRate");
    append_dec(s, i);
    s.append(") * t);\n\treturn iAudioTexture");
    append_dec(s, i);
    s.append("[idx].xy * (1.0 - p) + iAudioTexture");
    append_dec(s, i);
    s.append("[idx + 1].xy * p;\n}\nvec2 soundTexelFetch");
    append_dec(s, i);
    s.append("(uint idx) {\n\tuint baseIdx = iChannelSampleRate");
    append_dec(s, i);
    s.append(" * (iBaseFrame / iSampleRate);\n\treturn iAudioTexture");
    append_dec(s, i);
    s.append("[idx - baseIdx].xy;\n}\nvec2 soundDFTFetch");
    append_dec(s, i);
    s.append("(uint idx) {\n\tuint baseIdx = iChannelSampleRate");
    append_dec(s, i);
    s.append(" * (iBaseFrame / iSampleRate);\n\treturn iAudioTexture");
    append_dec(s, i);
    s.append("[idx - baseIdx].zw;\n}\n");
    proof {
        assert(final(s)@ =~= old(s)@ + spec_fetch_block(i as nat));
    }
}

/// Assemble the complete GLSL program text for `shader` and `n_assets` bound
/// assets.
pub fn assemble_program(shader: &str, n_assets: usize) -> (r: String)
    requires
        2 * n_assets + 1 <= usize::MAX,
    ensures
        r@ == spec_program(shader@, n_assets as nat),
{
    let mut s = String::from_str(
        "#version 450\nlayout(local_size_x = 1) in;\n\nlayout(set = 0, binding = 0) buffer OutputStorage {\n\tvec2[] output;\n};\n\nlayout(set = 0, binding = 1) uniform DeviceInfo {\n\tuint iSampleRate;\n\tuint iBaseFrame;\n};\n",
    );
    let mut i: usize = 0;
    while i < n_assets
        invariant
            i <= n_assets,
            2 * n_assets + 1 <= usize::MAX,
            s@ == spec_prefix() + spec_binding_blocks(i as nat),
        decreases n_assets - i,
    {
        push_binding_block(&mut s, i);
        i = i + 1;
        proof {
            assert(s@ =~= spec_prefix() + spec_binding_blocks(i as nat));
        }
    }
    let mut i: usize = 0;
    while i < n_assets
        invariant
            i <= n_assets,
            s@ == spec_prefix() + spec_binding_blocks(n_assets as nat) + spec_fetch_blocks(
                i as nat,
            ),
        decreases n_assets - i,
    {
        push_fetch_block(&mut s, i);
        i = i + 1;
        proof {
            assert(s@ =~= spec_prefix() + spec_binding_blocks(n_assets as nat)
                + spec_fetch_blocks(i as nat));
        }
    }
    s.append(shader);
    s.append(
        "\nvoid main() {\n\tuint idx = gl_GlobalInvocationID.x;\n\tuint frame = iBaseFrame + idx;\n\toutput[idx] = mainSound(idx, float(frame) / float(iSampleRate));\n}\n",
    );
    proof {
        assert(s@ =~= spec_program(shader@, n_assets as nat));
    }
    s
}

/// Which kind of buffer a layout slot binds.
#[derive(Clone, Copy, PartialEq, Eq, Structural, Debug)]
pub enum BindingKind {
    /// A read-write storage buffer.
    Storage,
    /// A uniform buffer.
    Uniform,
}

/// One slot of a bind-group layout, visible to the compute stage.
#[derive(Clone, Copy, PartialEq, Eq, Structural, Debug)]
pub struct BindingSlot {
    pub binding: u32,
    pub kind: BindingKind,
}

/// Slot `k` of either bind group: storage on even bindings, uniform on odd
/// ones, the binding index equal to the slot position.
pub open spec fn spec_slot(k: int) -> BindingSlot {
    BindingSlot {
        binding: k as u32,
        kind: if k % 2 == 0 {
            BindingKind::Storage
        } else {
            BindingKind::Uniform
        },
    }
}

/// Layout of bind group 0: the output storage buffer at binding 0 and the
/// device-info uniform at binding 1.
pub fn base_group_slots() -> (r: Vec<BindingSlot>)
    ensures
        r@ == seq![spec_slot(0), spec_slot(1)],
{
    let mut r: Vec<BindingSlot> = Vec::new();
    r.push(BindingSlot { binding: 0, kind: BindingKind::Storage });
    r.push(BindingSlot { binding: 1, kind: BindingKind::Uniform });
    proof {
        assert(r@ =~= seq![spec_slot(0), spec_slot(1)]);
    }
    r
}

/// Layout of bind group 1 for `n_assets` bound assets: asset `i` holds its
/// sample storage buffer at binding `2i` and its info uniform at binding
/// `2i + 1`.
pub fn asset_group_slots(n_assets: usize) -> (r: Vec<BindingSlot>)
    requires
        2 * n_assets <= u32::MAX,
    ensures
        r@ == Seq::new((2 * n_assets) as nat, |k: int| spec_slot(k)),
{
    let mut r: Vec<BindingSlot> = Vec::new();
    let mut k: usize = 0;
    while k < 2 * n_assets
        invariant
            k <= 2 * n_assets,
            2 * n_assets <= u32::MAX,
            r@ == Seq::new(k as nat, |j: int| spec_slot(j)),
        decreases 2 * n_assets - k,
    {
        if k % 2 == 0 {
            r.push(BindingSlot { binding: k as u32, kind: BindingKind::Storage });
        } else {
            r.push(BindingSlot { binding: k as u32, kind: BindingKind::Uniform });
        }
        k = k + 1;
        proof {
            assert(r@ =~= Seq::new(k as nat, |j: int| spec_slot(j)));
        }
    }
    r
}

/// What the outside GLSL-to-WGSL compiler returns for a compute-stage source:
/// a deterministic translation, named rather than restated.
pub uninterp spec fn wgsl_of(glsl: Seq<char>) -> Seq<char>;

/// Whether the outside compiler accepts a compute-stage source: its frontend,
/// validator and backend all decide on the source text alone, so acceptance
/// is a function of it too.
pub uninterp spec fn wgsl_accepts(glsl: Seq<char>) -> bool;

/// `s` starts with the prefix `p`.
pub open spec fn spec_starts_with(s: Seq<char>, p: Seq<char>) -> bool {
    p.len() <= s.len() && s.subrange(0, p.len() as int) == p
}

/// A failed translation's text: the diagnostic of the first failing step,
/// prefixed with that step's name.
pub open spec fn spec_step_diagnostic(e: Seq<char>) -> bool {
    ||| spec_starts_with(e, "GLSL Parse Error: "@)
    ||| spec_starts_with(e, "GLSL Validation Error: "@)
    ||| spec_starts_with(e, "WGSL write error: "@)
}

/// Relies on naga's GLSL frontend (`front::glsl::Frontend::parse`), its
/// validator (`valid::Validator::validate`) and its WGSL backend
/// (`back::wgsl::write_string`): chained with fixed options (compute stage,
/// no defines, full validation, plain writer), they decide and translate on
/// the source text alone — acceptance is named `wgsl_accepts`, the
/// translation `wgsl_of`.  A failure returns the first failing step's
/// diagnostic behind that step's name; its text is naga's own and is not
/// pinned further here.
#[verifier::external_body]
fn glsl_to_wgsl(code: &str) -> (r: Result<String, String>)
    ensures
        r is Ok <==> wgsl_accepts(code@),
        (r matches Ok(w) ==> w@ == wgsl_of(code@)),
        (r matches Err(e) ==> spec_step_diagnostic(e@)),
{
    let opts = naga::front::glsl::Options::from(naga::ShaderStage::Compute);
    let module = naga::front::glsl::Frontend::default().parse(&opts, code).map_err(
        |e| format!("GLSL Parse Error: {:?}", e),
    )?;
    let info = naga::valid::Validator::new(
        naga::valid::ValidationFlags::all(),
        naga::valid::Capabilities::empty(),
    ).validate(&module).map_err(|e| format!("GLSL Validation Error: {:?}", e))?;
    naga::back::wgsl::write_string(&module, &info, naga::back::wgsl::WriterFlags::empty()).map_err(
        |e| format!("WGSL write error: {}", e),
    )
}

/// A compiled sound program: the assembled GLSL text, its WGSL translation
/// for the GPU, and the two bind-group layouts the dispatch must use.
pub struct SoundProgram {
    pub glsl: String,
    pub wgsl: String,
    pub base_slots: Vec<BindingSlot>,
    pub asset_slots: Vec<BindingSlot>,
}

/// Build the complete program for a shader body and `n_assets` bound assets.
/// It succeeds exactly when the compiler accepts the assembled program text;
/// then the GLSL is exactly that text, the WGSL is the compiler's translation
/// of it, and the layouts are as the binding blocks declare.  A parse,
/// validation or write-out failure returns that step's diagnostic, a fatal
/// construction error.
pub fn build_sound_program(shader: &str, n_assets: usize) -> (r: Result<SoundProgram, String>)
    requires
        2 * n_assets + 1 <= u32::MAX,
    ensures
        r is Ok <==> wgsl_accepts(spec_program(shader@, n_assets as nat)),
        (r matches Ok(p) ==> {
            &&& p.glsl@ == spec_program(shader@, n_assets as nat)
            &&& p.wgsl@ == wgsl_of(spec_program(shader@, n_assets as nat))
            &&& p.base_slots@ == seq![spec_slot(0), spec_slot(1)]
            &&& p.asset_slots@ == Seq::new((2 * n_assets) as nat, |k: int| spec_slot(k))
        }),
        (r matches Err(e) ==> spec_step_diagnostic(e@)),
{
    let glsl = assemble_program(shader, n_assets);
    match glsl_to_wgsl(glsl.as_str()) {
        Ok(wgsl) => Ok(
            SoundProgram {
                glsl,
                wgsl,
                base_slots: base_group_slots(),
                asset_slots: asset_group_slots(n_assets),
            },
        ),
        Err(e) => Err(e),
    }
}

} // verus!
