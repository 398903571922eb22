//! The naming convention: which container entry each logical slot of
//! the model is stored under.
//!
//! Per-layer slots follow the template `model.layers.{i}.<suffix>`,
//! where `{i}` is the zero-based decimal layer index without padding
//! and the suffix is fixed per slot.  The remaining slots have fixed
//! names.  The whole convention lives in this module as data (one
//! suffix or name per slot), so an alternative layout would touch
//! nothing but these tables.

use vstd::prelude::*;
use vstd::string::StringExecFns;

verus! {

/// The character for one decimal digit `d < 10`.
pub open spec fn digit_char(d: nat) -> char {
    if d == 0 {
        '0'
    } else if d == 1 {
        '1'
    } else if d == 2 {
        '2'
    } else if d == 3 {
        '3'
    } else if d == 4 {
        '4'
    } else if d == 5 {
        '5'
    } else if d == 6 {
        '6'
    } else if d == 7 {
        '7'
    } else if d == 8 {
        '8'
    } else {
        '9'
    }
}

/// The decimal digits of `n`, most significant first, no padding and
/// no sign.
pub open spec fn dec_digits(n: nat) -> Seq<char>
    decreases n,
{
    if n < 10 {
        seq![digit_char(n)]
    } else {
        dec_digits(n / 10).push(digit_char(n % 10))
    }
}

/// The single-character string for one decimal digit.
fn digit_str(d: usize) -> (r: &'static str)
    requires
        d < 10,
    ensures
        r@ == seq![digit_char(d as nat)],
{
    proof {
        reveal_strlit("0");
        reveal_strlit("1");
        reveal_strlit("2");
        reveal_strlit("3");
        reveal_strlit("4");
        reveal_strlit("5");
        reveal_strlit("6");
        reveal_strlit("7");
        reveal_strlit("8");
        reveal_strlit("9");
        assert("0"@ =~= seq![digit_char(0)]);
        assert("1"@ =~= seq![digit_char(1)]);
        assert("2"@ =~= seq![digit_char(2)]);
        assert("3"@ =~= seq![digit_char(3)]);
        assert("4"@ =~= seq![digit_char(4)]);
        assert("5"@ =~= seq![digit_char(5)]);
        assert("6"@ =~= seq![digit_char(6)]);
        assert("7"@ =~= seq![digit_char(7)]);
        assert("8"@ =~= seq![digit_char(8)]);
        assert("9"@ =~= seq![digit_char(9)]);
    }
    if d == 0 {
        "0"
    } else if d == 1 {
        "1"
    } else if d == 2 {
        "2"
    } else if d == 3 {
        "3"
    } else if d == 4 {
        "4"
    } else if d == 5 {
        "5"
    } else if d == 6 {
        "6"
    } else if d == 7 {
        "7"
    } else if d == 8 {
        "8"
    } else {
        "9"
    }
}

/// Appends the decimal rendering of `n` to `s`.
fn push_dec(s: &mut String, n: usize)
    ensures
        final(s)@ == old(s)@ + dec_digits(n as nat),
    decreases n,
{
    if n >= 10 {
        push_dec(s, n / 10);
        s.append(digit_str(n % 10));
        proof {
            assert(dec_digits(n as nat) =~= dec_digits(n as nat / 10) + seq![
                digit_char(n as nat % 10),
            ]);
        }
    } else {
        s.append(digit_str(n));
    }
}

/// One per-layer parameter slot of the model.  Each layer of the
/// transformer stores one tensor per slot.
#[derive(Clone, Copy, Debug)]
pub enum LayerSlot {
    /// Attention input-norm weight.
    InputNorm,
    /// Query projection weight.
    QProj,
    /// Key projection weight.
    KProj,
    /// Value projection weight.
    VProj,
    /// Attention output projection weight.
    OProj,
    /// Feed-forward input-norm weight.
    PostAttnNorm,
    /// Feed-forward up projection weight.
    UpProj,
    /// Feed-forward gate projection weight.
    GateProj,
    /// Feed-forward down projection weight.
    DownProj,
}

impl LayerSlot {
    /// The slot's tail in the naming convention.
    pub open spec fn spec_suffix(self) -> Seq<char> {
        match self {
            LayerSlot::InputNorm => "input_layernorm.weight"@,
            LayerSlot::QProj => "self_attn.q_proj.weight"@,
            LayerSlot::KProj => "self_attn.k_proj.weight"@,
            LayerSlot::VProj => "self_attn.v_proj.weight"@,
            LayerSlot::OProj => "self_attn.o_proj.weight"@,
            LayerSlot::PostAttnNorm => "post_attention_layernorm.weight"@,
            LayerSlot::UpProj => "mlp.up_proj.weight"@,
            LayerSlot::GateProj => "mlp.gate_proj.weight"@,
            LayerSlot::DownProj => "mlp.down_proj.weight"@,
        }
    }

    /// The slot's tail in the naming convention.
    pub fn suffix(self) -> (r: &'static str)
        ensures
            r@ == self.spec_suffix(),
    {
        match self {
            LayerSlot::InputNorm => "input_layernorm.weight",
            LayerSlot::QProj => "self_attn.q_proj.weight",
            LayerSlot::KProj => "self_attn.k_proj.weight",
            LayerSlot::VProj => "self_attn.v_proj.weight",
            LayerSlot::OProj => "self_attn.o_proj.weight",
            LayerSlot::PostAttnNorm => "post_attention_layernorm.weight",
            LayerSlot::UpProj => "mlp.up_proj.weight",
            LayerSlot::GateProj => "mlp.gate_proj.weight",
            LayerSlot::DownProj => "mlp.down_proj.weight",
        }
    }
}

/// The container name for slot `slot` of layer `i`:
/// `model.layers.{i}.<suffix>`.
pub open spec fn spec_layer_name(slot: LayerSlot, i: nat) -> Seq<char> {
    "model.layers."@ + dec_digits(i) + "."@ + slot.spec_suffix()
}

/// Builds the container name for slot `slot` of layer `i`.
pub fn layer_name(slot: LayerSlot, i: usize) -> (s: String)
    ensures
        s@ == spec_layer_name(slot, i as nat),
{
    let mut s = String::from_str("model.layers.");
    push_dec(&mut s, i);
    s.append(".");
    s.append(slot.suffix());
    proof {
        assert(s@ =~= spec_layer_name(slot, i as nat));
    }
    s
}

/// The fixed name of the embedding-table entry.  The convention stores
/// the embedding table and the output head under the same entry
/// (tied weights); the loader still fills two independently owned
/// tensors from it.
pub open spec fn spec_embedding_name() -> Seq<char> {
    "lm_head.weight"@
}

/// The fixed name of the final-norm entry.
pub open spec fn spec_final_norm_name() -> Seq<char> {
    "model.norm.weight"@
}

/// The fixed name of the output-head entry; identical to the
/// embedding-table name (tied weights).
pub open spec fn spec_output_head_name() -> Seq<char> {
    "lm_head.weight"@
}

} // verus!
