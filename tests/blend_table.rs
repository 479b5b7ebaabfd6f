use spine_composite::blend::{BlendFactor, BlendMode, BlendState, BlendStates, BlendValue, Equation};

fn add(src: BlendFactor, dst: BlendFactor) -> BlendState {
    BlendState { equation: Equation::Add, src_factor: src, dst_factor: dst }
}

const ONE: BlendFactor = BlendFactor::One;
const SRC_ALPHA: BlendFactor = BlendFactor::Value(BlendValue::SourceAlpha);
const INV_SRC_ALPHA: BlendFactor = BlendFactor::OneMinusValue(BlendValue::SourceAlpha);
const INV_SRC_COLOR: BlendFactor = BlendFactor::OneMinusValue(BlendValue::SourceColor);
const DST_COLOR: BlendFactor = BlendFactor::Value(BlendValue::DestinationColor);

#[test]
fn additive_straight_alpha() {
    assert_eq!(
        BlendMode::Additive.get_blend_states(false),
        BlendStates { alpha_blend: add(ONE, ONE), color_blend: add(SRC_ALPHA, ONE) }
    );
}

#[test]
fn additive_premultiplied() {
    assert_eq!(
        BlendMode::Additive.get_blend_states(true),
        BlendStates { alpha_blend: add(ONE, ONE), color_blend: add(ONE, ONE) }
    );
}

#[test]
fn multiply_straight_alpha() {
    assert_eq!(
        BlendMode::Multiply.get_blend_states(false),
        BlendStates { alpha_blend: add(INV_SRC_ALPHA, INV_SRC_ALPHA), color_blend: add(DST_COLOR, INV_SRC_ALPHA) }
    );
}

#[test]
fn multiply_premultiplied() {
    assert_eq!(
        BlendMode::Multiply.get_blend_states(true),
        BlendStates { alpha_blend: add(INV_SRC_ALPHA, INV_SRC_ALPHA), color_blend: add(DST_COLOR, INV_SRC_ALPHA) }
    );
}

#[test]
fn normal_straight_alpha() {
    assert_eq!(
        BlendMode::Normal.get_blend_states(false),
        BlendStates { alpha_blend: add(ONE, INV_SRC_ALPHA), color_blend: add(SRC_ALPHA, INV_SRC_ALPHA) }
    );
}

#[test]
fn normal_premultiplied() {
    assert_eq!(
        BlendMode::Normal.get_blend_states(true),
        BlendStates { alpha_blend: add(ONE, INV_SRC_ALPHA), color_blend: add(ONE, INV_SRC_ALPHA) }
    );
}

#[test]
fn screen_straight_alpha() {
    assert_eq!(
        BlendMode::Screen.get_blend_states(false),
        BlendStates { alpha_blend: add(INV_SRC_COLOR, INV_SRC_ALPHA), color_blend: add(ONE, INV_SRC_ALPHA) }
    );
}

#[test]
fn screen_premultiplied() {
    assert_eq!(
        BlendMode::Screen.get_blend_states(true),
        BlendStates { alpha_blend: add(INV_SRC_COLOR, INV_SRC_ALPHA), color_blend: add(ONE, INV_SRC_ALPHA) }
    );
}

#[test]
fn blend_lookup_is_repeatable() {
    for mode in [BlendMode::Normal, BlendMode::Additive, BlendMode::Multiply, BlendMode::Screen] {
        for pma in [false, true] {
            let first = mode.get_blend_states(pma);
            let second = mode.get_blend_states(pma);
            assert_eq!(first, second);
            assert_eq!(first.alpha_blend.equation, Equation::Add);
            assert_eq!(first.color_blend.equation, Equation::Add);
        }
    }
}
