use blobs::FP_ONE;
use blobs::fxsurface::{
    BlendFactor, BlendParams, EffectError, FxBuffer, SurfaceId, UniformTable, UniformValue,
};

#[test]
fn effect_pass_clear_and_blend_are_fixed() {
    // The back surface starts fully transparent and the pass
    // accumulates as src * 1 + dst * (1 - src_alpha).
    assert_eq!(FxBuffer::effect_clear_color(), (0, 0, 0, 0));
    assert_eq!(
        FxBuffer::effect_blend(),
        BlendParams {
            source: BlendFactor::One,
            destination: BlendFactor::OneMinusSourceAlpha,
        }
    );
}

#[test]
fn successful_effect_swaps_front_and_back() {
    let mut fx = FxBuffer::new((800, 600));
    assert_eq!(fx.front, SurfaceId::First);
    assert_eq!(fx.back(), SurfaceId::Second);

    assert_eq!(fx.effect(true), Ok(()));
    assert_eq!(fx.front, SurfaceId::Second);
    assert_eq!(fx.back(), SurfaceId::First);

    assert_eq!(fx.effect(true), Ok(()));
    assert_eq!(fx.front, SurfaceId::First);
}

#[test]
fn failed_effect_leaves_identities_unchanged() {
    let mut fx = FxBuffer::new((800, 600));
    assert_eq!(fx.effect(true), Ok(()));
    let front_before = fx.front;
    assert_eq!(fx.effect(false), Err(EffectError::DrawFailed));
    assert_eq!(fx.front, front_before);
    assert_eq!(fx.size, (800, 600));
}

#[test]
fn resize_keeps_the_front_surface() {
    let mut fx = FxBuffer::new((800, 600));
    fx.effect(true).unwrap();
    fx.resize((1024, 768));
    assert_eq!(fx.size, (1024, 768));
    assert_eq!(fx.front, SurfaceId::Second);
}

#[test]
fn effect_shape_is_one_full_screen_rect() {
    let shape = FxBuffer::effect_shape();
    assert_eq!(shape.vertices.len(), 6);
    // Clip-space corners: (-1, 1) to (1, -1), in fixed point.
    assert_eq!(shape.vertices[0].pos, (-FP_ONE, FP_ONE));
    assert_eq!(shape.vertices[4].pos, (FP_ONE, -FP_ONE));
}

#[test]
fn effect_uniforms_bind_the_front_texture() {
    let mut base = UniformTable::new();
    base.add("threshold".to_string(), UniformValue::Scalar(410));
    base.add("smoothness".to_string(), UniformValue::Scalar(26));

    let mut fx = FxBuffer::new((64, 64));
    fx.effect(true).unwrap();
    let merged = fx.effect_uniforms(&base);

    assert_eq!(merged.entries.len(), 3);
    assert_eq!(merged.entries[0].0, "threshold");
    assert_eq!(merged.entries[0].1, UniformValue::Scalar(410));
    assert_eq!(merged.entries[2].0, "source_texture");
    assert_eq!(merged.entries[2].1, UniformValue::TextureRef(SurfaceId::Second));
}

#[test]
fn adding_a_uniform_twice_keeps_the_last_value() {
    let mut table = UniformTable::new();
    table.add("tint".to_string(), UniformValue::Vec3((10, 20, 30)));
    table.add("tint".to_string(), UniformValue::Vec3((1, 2, 3)));
    let last = table
        .entries
        .iter()
        .rev()
        .find(|e| e.0 == "tint")
        .map(|e| e.1);
    assert_eq!(last, Some(UniformValue::Vec3((1, 2, 3))));
}
