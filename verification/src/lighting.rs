//! Fullscreen deferred lighting: uniforms, target and clear decisions.

use vstd::prelude::*;

use crate::bytes::{native_bytes, word_bytes};
use crate::errors::PassError;
use crate::number;

verus! {

/// Bit pattern of `0.1`.
pub const TENTH: u32 = 0x3dcc_cccd;

/// Bit pattern of `0.15`.
pub const FIFTEEN_HUNDREDTHS: u32 = 0x3e19_999a;

/// Bit pattern of `0.02`.
pub const TWO_HUNDREDTHS: u32 = 0x3ca3_d70a;

/// Bit pattern of `0.03`.
pub const THREE_HUNDREDTHS: u32 = 0x3cf5_c28f;

/// Double-precision bit pattern of `0.02`, red of the built-in background colour.
pub const BUILT_IN_RED: u64 = 0x3f94_7ae1_47ae_147b;

/// Double-precision bit pattern of `0.02`, green of the built-in background colour.
pub const BUILT_IN_GREEN: u64 = 0x3f94_7ae1_47ae_147b;

/// Double-precision bit pattern of `0.03`, blue of the built-in background colour.
pub const BUILT_IN_BLUE: u64 = 0x3f9e_b851_eb85_1eb8;

/// Double-precision bit pattern of `1.0`, alpha of the built-in background colour.
pub const BUILT_IN_ALPHA: u64 = 0x3ff0_0000_0000_0000;

/// Colours of the scene, as bit patterns.
#[derive(Clone, Copy, Debug)]
pub struct SceneColors {
    pub ambient_color: [u32; 3],
    pub ambient_intensity: u32,
    /// Background colour (rgba).
    pub clear_color: [u32; 4],
}

/// What `LightingPass::prepare` reads of the frame.
#[derive(Clone, Copy, Debug)]
pub struct LightingFrame {
    /// Colours of the high-level scene, when there is one.
    pub scene: Option<SceneColors>,
    /// The cascade split distances (bit patterns) that the cascade matrices were built
    /// for.
    pub csm_splits: [u32; 4],
    pub movable_light_count: u32,
    pub frame_num: u64,
    /// A sky pass ran before.
    pub has_sky: bool,
}

/// Identity of the resources that the bind group refers to.
#[derive(Clone, Copy, Debug, PartialEq, Eq, Structural)]
pub struct LightingBindings {
    pub albedo_ptr: usize,
    pub depth_ptr: usize,
    pub lights_ptr: usize,
    pub lights_size: u64,
}

/// A colour to clear the target to, as bit patterns.
#[derive(Clone, Copy, Debug)]
pub enum ClearColor {
    /// The background colour of a frame, in single precision.
    Frame([u32; 4]),
    /// The built-in background colour, in double precision.
    BuiltIn([u64; 4]),
}

/// The colour that a remembered background colour stands for: the built-in one where none
/// was seen yet.
pub open spec fn background_of(remembered: Option<[u32; 4]>) -> ClearColor {
    match remembered {
        Some(color) => ClearColor::Frame(color),
        None => ClearColor::BuiltIn(
            [BUILT_IN_RED, BUILT_IN_GREEN, BUILT_IN_BLUE, BUILT_IN_ALPHA],
        ),
    }
}

/// The colour that a remembered background colour stands for: the built-in one where none
/// was seen yet.
pub fn background(remembered: Option<[u32; 4]>) -> (color: ClearColor)
    ensures
        color == background_of(remembered),
{
    match remembered {
        Some(color) => ClearColor::Frame(color),
        None => ClearColor::BuiltIn(
            [BUILT_IN_RED, BUILT_IN_GREEN, BUILT_IN_BLUE, BUILT_IN_ALPHA],
        ),
    }
}

/// What happens to the target when the render pass begins.
#[derive(Clone, Copy, Debug)]
pub enum TargetLoad {
    /// Keep what the sky pass left.
    Load,
    /// Clear to the background colour (bit patterns) seen by the last `prepare`; before
    /// the first one, to the built-in colour. [`background`] gives the colour.
    Clear(Option<[u32; 4]>),
}

/// The render pass to encode: one fullscreen triangle.
#[derive(Clone, Copy, Debug)]
pub struct LightingPlan {
    /// The bind group must be created anew first.
    pub rebuild_bind_group: bool,
    /// Render into the pass's own target; otherwise into the one published upstream.
    pub own_target: bool,
    pub load: TargetLoad,
}

/// The colours of a frame. Without a scene they give a dim void rather than pure
/// black.
pub open spec fn colors_of(frame: LightingFrame) -> SceneColors {
    match frame.scene {
        Some(colors) => colors,
        None => SceneColors {
            ambient_color: [TENTH, TENTH, FIFTEEN_HUNDREDTHS],
            ambient_intensity: TENTH,
            clear_color: [TWO_HUNDREDTHS, TWO_HUNDREDTHS, THREE_HUNDREDTHS, number::ONE],
        },
    }
}

/// The words of the shader's globals: ambient colour and intensity, cascade splits,
/// four reserved zeros, light count, frame number, sky flag, padding.
pub open spec fn globals_words(frame: LightingFrame) -> Seq<u32> {
    let colors = colors_of(frame);
    colors.ambient_color@ + seq![colors.ambient_intensity] + frame.csm_splits@ + seq![
        0u32,
        0u32,
        0u32,
        0u32,
        frame.movable_light_count,
        (frame.frame_num as int % 0x1_0000_0000) as u32,
        if frame.has_sky {
            1u32
        } else {
            0u32
        },
        0u32,
    ]
}

/// State of the lighting pass.
pub struct LightingPass {
    /// The resources that the current bind group refers to.
    pub bind_group_key: Option<LightingBindings>,
    /// Background colour (bit patterns) for frames without a sky, refreshed in
    /// `prepare`.
    pub clear_color: Option<[u32; 4]>,
}

impl LightingPass {
    /// The pass before the first frame.
    pub fn new() -> (pass: Self)
        ensures
            pass.bind_group_key is None,
            pass.clear_color is None,
            background_of(pass.clear_color) == ClearColor::BuiltIn(
                [BUILT_IN_RED, BUILT_IN_GREEN, BUILT_IN_BLUE, BUILT_IN_ALPHA],
            ),
    {
        LightingPass { bind_group_key: None, clear_color: None }
    }

    /// Size of the pass's own target: at least one texel along each axis.
    pub fn target_size(width: u32, height: u32) -> (size: (u32, u32))
        ensures
            size.0 == if width == 0 {
                1
            } else {
                width
            },
            size.1 == if height == 0 {
                1
            } else {
                height
            },
    {
        (
            if width == 0 {
                1
            } else {
                width
            },
            if height == 0 {
                1
            } else {
                height
            },
        )
    }

    /// Encodes the globals of this frame and remembers its background colour.
    pub fn prepare(&mut self, frame: &LightingFrame) -> (globals: Vec<u8>)
        ensures
            native_bytes(globals_words(*frame), globals@),
            globals@.len() == 64,
            final(self).clear_color == Some(colors_of(*frame).clear_color),
            background_of(final(self).clear_color) == ClearColor::Frame(
                colors_of(*frame).clear_color,
            ),
            final(self).bind_group_key == old(self).bind_group_key,
    {
        let colors: SceneColors = match frame.scene {
            Some(colors) => colors,
            None => SceneColors {
                ambient_color: [TENTH, TENTH, FIFTEEN_HUNDREDTHS],
                ambient_intensity: TENTH,
                clear_color: [TWO_HUNDREDTHS, TWO_HUNDREDTHS, THREE_HUNDREDTHS, number::ONE],
            },
        };
        self.clear_color = Some(colors.clear_color);
        let low: u64 = frame.frame_num % 0x1_0000_0000u64;
        let words: [u32; 16] = [
            colors.ambient_color[0],
            colors.ambient_color[1],
            colors.ambient_color[2],
            colors.ambient_intensity,
            frame.csm_splits[0],
            frame.csm_splits[1],
            frame.csm_splits[2],
            frame.csm_splits[3],
            0,
            0,
            0,
            0,
            frame.movable_light_count,
            low as u32,
            if frame.has_sky {
                1
            } else {
                0
            },
            0,
        ];
        assert(words@ =~= globals_words(*frame));
        word_bytes(words.as_slice())
    }

    /// Plans the render pass of this frame.
    pub fn execute(
        &mut self,
        has_gbuffer: bool,
        has_upstream_target: bool,
        has_sky: bool,
        key: LightingBindings,
    ) -> (result: Result<LightingPlan, PassError>)
        ensures
            match result {
                Err(PassError::InvalidPassConfig(text)) => {
                    &&& !has_gbuffer
                    &&& text@ == "PipelineLighting requires frame.gbuffer"@
                    &&& *final(self) == *old(self)
                },
                Ok(plan) => {
                    &&& has_gbuffer
                    &&& plan.rebuild_bind_group == (old(self).bind_group_key != Some(key))
                    &&& plan.own_target == !has_upstream_target
                    &&& plan.load == (if has_sky {
                        TargetLoad::Load
                    } else {
                        TargetLoad::Clear(old(self).clear_color)
                    })
                    &&& final(self).bind_group_key == Some(key)
                    &&& final(self).clear_color == old(self).clear_color
                },
            },
    {
        if !has_gbuffer {
            return Err(PassError::InvalidPassConfig("PipelineLighting requires frame.gbuffer"));
        }
        let rebuild_bind_group: bool = match self.bind_group_key {
            Some(current) => current != key,
            None => true,
        };
        self.bind_group_key = Some(key);
        let load: TargetLoad = if has_sky {
            TargetLoad::Load
        } else {
            TargetLoad::Clear(self.clear_color)
        };
        Ok(LightingPlan { rebuild_bind_group, own_target: !has_upstream_target, load })
    }

    /// Whether the pass publishes its own target: only where none was published
    /// upstream, so that the published target is the one rendered into.
    pub fn publish(&self, has_upstream_target: bool) -> (own: bool)
        ensures
            own == !has_upstream_target,
    {
        !has_upstream_target
    }
}

/// The sixteen words of the globals, each at its place. Without a scene the ambient colour
/// is `(0.1, 0.1, 0.15)` at intensity `0.1` and the background `(0.02, 0.02, 0.03, 1.0)`.
pub proof fn globals_are_laid_out_in_order(frame: LightingFrame, i: int)
    requires
        0 <= i < 4,
    ensures
        globals_words(frame).len() == 16,
        frame.scene matches Some(scene) ==> {
            &&& i < 3 ==> globals_words(frame)[i] == scene.ambient_color@[i]
            &&& globals_words(frame)[3] == scene.ambient_intensity
            &&& colors_of(frame).clear_color == scene.clear_color
        },
        frame.scene is None ==> {
            &&& i < 2 ==> globals_words(frame)[i] == 0x3dcc_cccd
            &&& globals_words(frame)[2] == 0x3e19_999a
            &&& globals_words(frame)[3] == 0x3dcc_cccd
            &&& i < 2 ==> colors_of(frame).clear_color@[i] == 0x3ca3_d70a
            &&& colors_of(frame).clear_color@[2] == 0x3cf5_c28f
            &&& colors_of(frame).clear_color@[3] == 0x3f80_0000
        },
        globals_words(frame)[4 + i] == frame.csm_splits@[i],
        globals_words(frame)[8 + i] == 0,
        globals_words(frame)[12] == frame.movable_light_count,
        globals_words(frame)[13] == frame.frame_num as int % 0x1_0000_0000,
        globals_words(frame)[14] == 1 <==> frame.has_sky,
        globals_words(frame)[14] == 0 <==> !frame.has_sky,
        globals_words(frame)[15] == 0,
{
}

/// A remembered colour is kept as it is, and none stands for `(0.02, 0.02, 0.03, 1.0)` in
/// double precision.
pub proof fn backgrounds_are_resolved(color: [u32; 4])
    ensures
        background_of(Some(color)) == ClearColor::Frame(color),
        background_of(None) is BuiltIn,
        background_of(None)->BuiltIn_0@ == seq![
            0x3f94_7ae1_47ae_147bu64,
            0x3f94_7ae1_47ae_147bu64,
            0x3f9e_b851_eb85_1eb8u64,
            0x3ff0_0000_0000_0000u64,
        ],
{
    assert(background_of(None)->BuiltIn_0@ =~= seq![
        0x3f94_7ae1_47ae_147bu64,
        0x3f94_7ae1_47ae_147bu64,
        0x3f9e_b851_eb85_1eb8u64,
        0x3ff0_0000_0000_0000u64,
    ]);
}

} // verus!
