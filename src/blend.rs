use vstd::prelude::*;

verus! {

/// The way a slot's attachment is composited onto what lies beneath it.
#[derive(Clone, Copy, Debug, PartialEq, Eq, Structural)]
pub enum BlendMode {
    Normal,
    Additive,
    Multiply,
    Screen,
}

/// A quantity of the source or destination pixel that a blend factor reads.
#[derive(Clone, Copy, Debug, PartialEq, Eq, Structural)]
pub enum BlendValue {
    SourceColor,
    SourceAlpha,
    DestinationColor,
    DestinationAlpha,
}

/// A weight applied to one side of the blend equation.
#[derive(Clone, Copy, Debug, PartialEq, Eq, Structural)]
pub enum BlendFactor {
    Zero,
    One,
    Value(BlendValue),
    OneMinusValue(BlendValue),
    SourceAlphaSaturate,
}

/// How the weighted source and destination are combined.
#[derive(Clone, Copy, Debug, PartialEq, Eq, Structural)]
pub enum Equation {
    Add,
    Subtract,
    ReverseSubtract,
}

/// One blend equation with its source and destination factors.
#[derive(Clone, Copy, Debug, PartialEq, Eq, Structural)]
pub struct BlendState {
    pub equation: Equation,
    pub src_factor: BlendFactor,
    pub dst_factor: BlendFactor,
}

/// The blend state for the color channels and the one for the alpha channel.
#[derive(Clone, Copy, Debug, PartialEq, Eq, Structural)]
pub struct BlendStates {
    pub alpha_blend: BlendState,
    pub color_blend: BlendState,
}

pub open spec fn add_state(factors: (BlendFactor, BlendFactor)) -> BlendState {
    BlendState { equation: Equation::Add, src_factor: factors.0, dst_factor: factors.1 }
}

pub open spec fn src_alpha() -> BlendFactor {
    BlendFactor::Value(BlendValue::SourceAlpha)
}

pub open spec fn one_minus_src_alpha() -> BlendFactor {
    BlendFactor::OneMinusValue(BlendValue::SourceAlpha)
}

/// Source and destination factors of the alpha channel: they depend on the mode alone.
pub open spec fn alpha_factors(mode: BlendMode) -> (BlendFactor, BlendFactor) {
    match mode {
        BlendMode::Normal => (BlendFactor::One, one_minus_src_alpha()),
        BlendMode::Additive => (BlendFactor::One, BlendFactor::One),
        BlendMode::Multiply => (one_minus_src_alpha(), one_minus_src_alpha()),
        BlendMode::Screen => (
            BlendFactor::OneMinusValue(BlendValue::SourceColor),
            one_minus_src_alpha(),
        ),
    }
}

/// Source and destination factors of the color channels. A premultiplied source already
/// carries its alpha in its color, so Normal and Additive then weigh it by One.
pub open spec fn color_factors(mode: BlendMode, premultiplied: bool) -> (BlendFactor, BlendFactor) {
    let straight_src = if premultiplied { BlendFactor::One } else { src_alpha() };
    match mode {
        BlendMode::Normal => (straight_src, one_minus_src_alpha()),
        BlendMode::Additive => (straight_src, BlendFactor::One),
        BlendMode::Multiply => (
            BlendFactor::Value(BlendValue::DestinationColor),
            one_minus_src_alpha(),
        ),
        BlendMode::Screen => (BlendFactor::One, one_minus_src_alpha()),
    }
}

pub open spec fn blend_states_of(mode: BlendMode, premultiplied: bool) -> BlendStates {
    BlendStates {
        alpha_blend: add_state(alpha_factors(mode)),
        color_blend: add_state(color_factors(mode, premultiplied)),
    }
}

fn add_blend(src_factor: BlendFactor, dst_factor: BlendFactor) -> (r: BlendState)
    ensures
        r == add_state((src_factor, dst_factor)),
{
    BlendState { equation: Equation::Add, src_factor, dst_factor }
}

impl BlendMode {
    /// The GPU blend states that draw an attachment of this mode, for a texture whose
    /// alpha is premultiplied or straight.
    pub fn get_blend_states(&self, premultiplied_alpha: bool) -> (r: BlendStates)
        ensures
            r == blend_states_of(*self, premultiplied_alpha),
            r.alpha_blend.equation == Equation::Add,
            r.color_blend.equation == Equation::Add,
    {
        let one = BlendFactor::One;
        let src_alpha = BlendFactor::Value(BlendValue::SourceAlpha);
        let inv_src_alpha = BlendFactor::OneMinusValue(BlendValue::SourceAlpha);
        let inv_src_color = BlendFactor::OneMinusValue(BlendValue::SourceColor);
        let dst_color = BlendFactor::Value(BlendValue::DestinationColor);
        match self {
            BlendMode::Additive => {
                if premultiplied_alpha {
                    BlendStates { alpha_blend: add_blend(one, one), color_blend: add_blend(one, one) }
                } else {
                    BlendStates {
                        alpha_blend: add_blend(one, one),
                        color_blend: add_blend(src_alpha, one),
                    }
                }
            },
            BlendMode::Multiply => {
                if premultiplied_alpha {
                    BlendStates {
                        alpha_blend: add_blend(inv_src_alpha, inv_src_alpha),
                        color_blend: add_blend(dst_color, inv_src_alpha),
                    }
                } else {
                    BlendStates {
                        alpha_blend: add_blend(inv_src_alpha, inv_src_alpha),
                        color_blend: add_blend(dst_color, inv_src_alpha),
                    }
                }
            },
            BlendMode::Normal => {
                if premultiplied_alpha {
                    BlendStates {
                        alpha_blend: add_blend(one, inv_src_alpha),
                        color_blend: add_blend(one, inv_src_alpha),
                    }
                } else {
                    BlendStates {
                        alpha_blend: add_blend(one, inv_src_alpha),
                        color_blend: add_blend(src_alpha, inv_src_alpha),
                    }
                }
            },
            BlendMode::Screen => {
                if premultiplied_alpha {
                    BlendStates {
                        alpha_blend: add_blend(inv_src_color, inv_src_alpha),
                        color_blend: add_blend(one, inv_src_alpha),
                    }
                } else {
                    BlendStates {
                        alpha_blend: add_blend(inv_src_color, inv_src_alpha),
                        color_blend: add_blend(one, inv_src_alpha),
                    }
                }
            },
        }
    }
}

} // verus!
