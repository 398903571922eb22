//! Assembling the model's parameter set from the weight container.
//!
//! The loader resolves each logical slot of the model to a container
//! entry name (see `names`), fetches the entry, decodes its bytes
//! (see `decode`), and collects the tensors into `LLamaParams`.  A
//! missing name or an undecodable entry aborts the whole load: no
//! partial parameter set is ever returned.

use vstd::prelude::*;
use crate::decode::decode_entry;
use crate::decode::entry_fits;
use crate::decode::le_words;
use crate::error::LoadError;
use crate::names::spec_embedding_name;
use crate::names::spec_final_norm_name;
use crate::names::spec_layer_name;
use crate::names::spec_output_head_name;
use crate::names::layer_name;
use crate::names::LayerSlot;
use crate::source::lookup;
use crate::source::st_entries;
use crate::tensor::Tensor;

verus! {

/// The contents of a weight container, as the contracts speak of it:
/// for each tensor name, the raw byte buffer and the shape stored
/// under it.
pub type Entries = Map<Seq<char>, (Seq<u8>, Seq<usize>)>;

/// The model configuration the loader consumes: how many times the
/// per-layer slots repeat.
pub struct LlamaConfig {
    pub num_hidden_layers: usize,
}

/// The fully populated parameter set of a LLaMA-style model.  Every
/// `Vec` field holds one tensor per layer, indexed by layer.
#[derive(Debug)]
pub struct LLamaParams<T> {
    /// Token-id to embedding lookup table, shape (vocab_size, dim).
    pub embedding_table: Tensor<T>,
    /// Attention input-norm weight, shape (hidden_size,), per layer.
    pub rms_att_w: Vec<Tensor<T>>,
    /// Query projection weight, per layer.
    pub wq: Vec<Tensor<T>>,
    /// Key projection weight, per layer.
    pub wk: Vec<Tensor<T>>,
    /// Value projection weight, per layer.
    pub wv: Vec<Tensor<T>>,
    /// Attention output projection weight, per layer.
    pub wo: Vec<Tensor<T>>,
    /// Feed-forward input-norm weight, shape (hidden_size,), per layer.
    pub rms_ffn_w: Vec<Tensor<T>>,
    /// Feed-forward up projection weight, per layer.
    pub w_up: Vec<Tensor<T>>,
    /// Feed-forward gate projection weight, per layer.
    pub w_gate: Vec<Tensor<T>>,
    /// Feed-forward down projection weight, per layer.
    pub w_down: Vec<Tensor<T>>,
    /// Final norm weight, shape (hidden_size,), applied after the last
    /// layer.
    pub rms_out_w: Tensor<T>,
    /// Output head projecting the final hidden state to vocabulary
    /// logits, shape (vocab_size, dim).
    pub lm_head: Tensor<T>,
}

/// Whether the container holds a decodable entry under `name`: the
/// name is present and its bytes fit its shape.
pub open spec fn entry_ok(entries: Entries, name: Seq<char>) -> bool {
    &&& entries.dom().contains(name)
    &&& entry_fits(entries[name].0, entries[name].1)
}

/// The error the loader reports for a bad entry `name`: `NotFound`
/// when the container lacks the name, `MalformedTensor` when the entry
/// is present but its bytes do not fit its shape.  Either way the
/// error carries the name itself.
pub open spec fn entry_err(entries: Entries, name: Seq<char>, e: LoadError) -> bool {
    if entries.dom().contains(name) {
        e matches LoadError::MalformedTensor(n) && n@ == name
    } else {
        e matches LoadError::NotFound(n) && n@ == name
    }
}

/// Whether tensor `t` holds exactly the decoded contents of the entry
/// stored under `name`.
pub open spec fn tensor_matches(t: Tensor<u32>, entries: Entries, name: Seq<char>) -> bool {
    &&& entry_ok(entries, name)
    &&& t.data@ == le_words(entries[name].0)
    &&& t.shape@ == entries[name].1
}

/// Whether `v` holds, for each layer `0..layers` in ascending order,
/// the decoded tensor of slot `slot` of that layer.
pub open spec fn layer_vec_matches(
    v: Seq<Tensor<u32>>,
    entries: Entries,
    slot: LayerSlot,
    layers: nat,
) -> bool {
    &&& v.len() == layers
    &&& forall|i: int|
        0 <= i < layers ==> tensor_matches(v[i], entries, spec_layer_name(slot, i as nat))
}

/// Every field of the parameter set holds exactly the decoded contents
/// of its container entry, per-layer collections indexed by ascending
/// layer.  This is what a successful load guarantees of its result.
pub open spec fn params_match(p: LLamaParams<u32>, entries: Entries, layers: nat) -> bool {
    &&& tensor_matches(p.embedding_table, entries, spec_embedding_name())
    &&& layer_vec_matches(p.rms_att_w@, entries, LayerSlot::InputNorm, layers)
    &&& layer_vec_matches(p.wq@, entries, LayerSlot::QProj, layers)
    &&& layer_vec_matches(p.wk@, entries, LayerSlot::KProj, layers)
    &&& layer_vec_matches(p.wv@, entries, LayerSlot::VProj, layers)
    &&& layer_vec_matches(p.wo@, entries, LayerSlot::OProj, layers)
    &&& layer_vec_matches(p.rms_ffn_w@, entries, LayerSlot::PostAttnNorm, layers)
    &&& layer_vec_matches(p.w_up@, entries, LayerSlot::UpProj, layers)
    &&& layer_vec_matches(p.w_gate@, entries, LayerSlot::GateProj, layers)
    &&& layer_vec_matches(p.w_down@, entries, LayerSlot::DownProj, layers)
    &&& tensor_matches(p.rms_out_w, entries, spec_final_norm_name())
    &&& tensor_matches(p.lm_head, entries, spec_output_head_name())
}

/// Whether the container can satisfy a configuration with `layers`
/// layers: every required entry — the embedding table, each per-layer
/// slot of each layer, the final norm and the output head — is present
/// and decodable.
pub open spec fn loadable(entries: Entries, layers: nat) -> bool {
    &&& entry_ok(entries, spec_embedding_name())
    &&& forall|slot: LayerSlot, i: int|
        0 <= i < layers ==> #[trigger] entry_ok(entries, spec_layer_name(slot, i as nat))
    &&& entry_ok(entries, spec_final_norm_name())
    &&& entry_ok(entries, spec_output_head_name())
}

/// The names of one per-layer slot for layers `0..layers`, in
/// ascending layer order.
pub open spec fn slot_names(slot: LayerSlot, layers: nat) -> Seq<Seq<char>> {
    Seq::new(layers, |i: int| spec_layer_name(slot, i as nat))
}

/// The first name of `names` whose entry is absent or undecodable;
/// `None` when every one is fine.
pub open spec fn first_bad(entries: Entries, names: Seq<Seq<char>>) -> Option<Seq<char>>
    decreases names.len(),
{
    if names.len() == 0 {
        None
    } else if !entry_ok(entries, names.first()) {
        Some(names.first())
    } else {
        first_bad(entries, names.drop_first())
    }
}

/// The first required name, in the loader's resolution order, whose
/// entry is absent or undecodable; `None` exactly when the load will
/// succeed.  The loader resolves the embedding table first, then each
/// per-layer slot for all layers in ascending order, then the final
/// norm, then the output head.
pub open spec fn first_bad_name(entries: Entries, layers: nat) -> Option<Seq<char>> {
    if !entry_ok(entries, spec_embedding_name()) {
        Some(spec_embedding_name())
    } else if first_bad(entries, slot_names(LayerSlot::InputNorm, layers)) is Some {
        first_bad(entries, slot_names(LayerSlot::InputNorm, layers))
    } else if first_bad(entries, slot_names(LayerSlot::QProj, layers)) is Some {
        first_bad(entries, slot_names(LayerSlot::QProj, layers))
    } else if first_bad(entries, slot_names(LayerSlot::KProj, layers)) is Some {
        first_bad(entries, slot_names(LayerSlot::KProj, layers))
    } else if first_bad(entries, slot_names(LayerSlot::VProj, layers)) is Some {
        first_bad(entries, slot_names(LayerSlot::VProj, layers))
    } else if first_bad(entries, slot_names(LayerSlot::OProj, layers)) is Some {
        first_bad(entries, slot_names(LayerSlot::OProj, layers))
    } else if first_bad(entries, slot_names(LayerSlot::PostAttnNorm, layers)) is Some {
        first_bad(entries, slot_names(LayerSlot::PostAttnNorm, layers))
    } else if first_bad(entries, slot_names(LayerSlot::UpProj, layers)) is Some {
        first_bad(entries, slot_names(LayerSlot::UpProj, layers))
    } else if first_bad(entries, slot_names(LayerSlot::GateProj, layers)) is Some {
        first_bad(entries, slot_names(LayerSlot::GateProj, layers))
    } else if first_bad(entries, slot_names(LayerSlot::DownProj, layers)) is Some {
        first_bad(entries, slot_names(LayerSlot::DownProj, layers))
    } else if !entry_ok(entries, spec_final_norm_name()) {
        Some(spec_final_norm_name())
    } else if !entry_ok(entries, spec_output_head_name()) {
        Some(spec_output_head_name())
    } else {
        None
    }
}

/// `first_bad` finds nothing exactly when every name's entry is fine.
proof fn lemma_first_bad_none_iff(entries: Entries, names: Seq<Seq<char>>)
    ensures
        (first_bad(entries, names) is None) <==> (forall|i: int|
            0 <= i < names.len() ==> entry_ok(entries, names[i])),
    decreases names.len(),
{
    if names.len() == 0 {
    } else {
        lemma_first_bad_none_iff(entries, names.drop_first());
        let tail = names.drop_first();
        if !entry_ok(entries, names.first()) {
            assert(names[0] == names.first());
        } else {
            if forall|i: int| 0 <= i < tail.len() ==> entry_ok(entries, tail[i]) {
                assert forall|i: int| 0 <= i < names.len() implies entry_ok(entries, names[i]) by {
                    if i == 0 {
                        assert(names[0] == names.first());
                    } else {
                        assert(tail[i - 1] == names[i]);
                        assert(entry_ok(entries, tail[i - 1]));
                    }
                }
            } else {
                let i = choose|i: int| 0 <= i < tail.len() && !entry_ok(entries, tail[i]);
                assert(names[i + 1] == tail[i]);
                assert(!entry_ok(entries, names[i + 1]));
            }
        }
    }
}

/// When the first `i` names are fine and the `i`th is not, `first_bad`
/// returns exactly the `i`th name.
proof fn lemma_first_bad_at(entries: Entries, names: Seq<Seq<char>>, i: int)
    requires
        0 <= i < names.len(),
        forall|j: int| 0 <= j < i ==> entry_ok(entries, names[j]),
        !entry_ok(entries, names[i]),
    ensures
        first_bad(entries, names) == Some(names[i]),
    decreases i,
{
    if i == 0 {
        assert(names[0] == names.first());
    } else {
        let tail = names.drop_first();
        assert(names[0] == names.first());
        assert(entry_ok(entries, names.first()));
        assert forall|j: int| 0 <= j < i - 1 implies entry_ok(entries, tail[j]) by {
            assert(tail[j] == names[j + 1]);
        }
        assert(tail[i - 1] == names[i]);
        lemma_first_bad_at(entries, tail, i - 1);
    }
}

/// Bridges `first_bad` over a slot's name list to a direct statement
/// about the slot's layers.
proof fn lemma_slot_first_bad(entries: Entries, slot: LayerSlot, layers: nat)
    ensures
        (first_bad(entries, slot_names(slot, layers)) is None) <==> (forall|i: int|
            0 <= i < layers ==> #[trigger] entry_ok(entries, spec_layer_name(slot, i as nat))),
{
    let names = slot_names(slot, layers);
    lemma_first_bad_none_iff(entries, names);
    if forall|i: int| 0 <= i < names.len() ==> entry_ok(entries, names[i]) {
        assert forall|i: int| 0 <= i < layers implies #[trigger] entry_ok(
            entries,
            spec_layer_name(slot, i as nat),
        ) by {
            assert(entry_ok(entries, names[i]));
        }
    }
    if forall|i: int| 0 <= i < layers ==> #[trigger] entry_ok(entries, spec_layer_name(slot, i as nat)) {
        assert forall|i: int| 0 <= i < names.len() implies entry_ok(entries, names[i]) by {
            assert(entry_ok(entries, spec_layer_name(slot, i as nat)));
        }
    }
}

/// Law: the loader's resolution order finds a bad entry exactly when
/// some required entry — the embedding table, a per-layer slot of some
/// layer, the final norm or the output head — is absent or
/// undecodable.
pub proof fn lemma_first_bad_name_none_iff(entries: Entries, layers: nat)
    ensures
        (first_bad_name(entries, layers) is None) <==> loadable(entries, layers),
{
    lemma_slot_first_bad(entries, LayerSlot::InputNorm, layers);
    lemma_slot_first_bad(entries, LayerSlot::QProj, layers);
    lemma_slot_first_bad(entries, LayerSlot::KProj, layers);
    lemma_slot_first_bad(entries, LayerSlot::VProj, layers);
    lemma_slot_first_bad(entries, LayerSlot::OProj, layers);
    lemma_slot_first_bad(entries, LayerSlot::PostAttnNorm, layers);
    lemma_slot_first_bad(entries, LayerSlot::UpProj, layers);
    lemma_slot_first_bad(entries, LayerSlot::GateProj, layers);
    lemma_slot_first_bad(entries, LayerSlot::DownProj, layers);
    if first_bad_name(entries, layers) is None {
        assert forall|slot: LayerSlot, i: int| 0 <= i < layers implies #[trigger] entry_ok(
            entries,
            spec_layer_name(slot, i as nat),
        ) by {
            match slot {
                LayerSlot::InputNorm => assert(entry_ok(
                    entries,
                    spec_layer_name(LayerSlot::InputNorm, i as nat),
                )),
                LayerSlot::QProj => assert(entry_ok(
                    entries,
                    spec_layer_name(LayerSlot::QProj, i as nat),
                )),
                LayerSlot::KProj => assert(entry_ok(
                    entries,
                    spec_layer_name(LayerSlot::KProj, i as nat),
                )),
                LayerSlot::VProj => assert(entry_ok(
                    entries,
                    spec_layer_name(LayerSlot::VProj, i as nat),
                )),
                LayerSlot::OProj => assert(entry_ok(
                    entries,
                    spec_layer_name(LayerSlot::OProj, i as nat),
                )),
                LayerSlot::PostAttnNorm => assert(entry_ok(
                    entries,
                    spec_layer_name(LayerSlot::PostAttnNorm, i as nat),
                )),
                LayerSlot::UpProj => assert(entry_ok(
                    entries,
                    spec_layer_name(LayerSlot::UpProj, i as nat),
                )),
                LayerSlot::GateProj => assert(entry_ok(
                    entries,
                    spec_layer_name(LayerSlot::GateProj, i as nat),
                )),
                LayerSlot::DownProj => assert(entry_ok(
                    entries,
                    spec_layer_name(LayerSlot::DownProj, i as nat),
                )),
            }
        }
    }
}

/// A tensor that matches a decodable entry satisfies the tensor
/// invariant.
proof fn lemma_tensor_matches_well_formed(t: Tensor<u32>, entries: Entries, name: Seq<char>)
    requires
        tensor_matches(t, entries, name),
    ensures
        t.well_formed(),
{
}

/// Law: a parameter set that matches the container — what a successful
/// load guarantees of its result — is structurally sound: every
/// per-layer collection holds exactly one tensor per layer, and every
/// tensor's data length equals the product of its shape.
pub proof fn lemma_params_match_well_formed(p: LLamaParams<u32>, entries: Entries, layers: nat)
    requires
        params_match(p, entries, layers),
    ensures
        p.well_formed(layers),
{
    lemma_tensor_matches_well_formed(p.embedding_table, entries, spec_embedding_name());
    lemma_tensor_matches_well_formed(p.rms_out_w, entries, spec_final_norm_name());
    lemma_tensor_matches_well_formed(p.lm_head, entries, spec_output_head_name());
    assert forall|v: Seq<Tensor<u32>>, slot: LayerSlot|
        layer_vec_matches(v, entries, slot, layers) implies tensor_vec_well_formed(v, layers) by {
        assert forall|i: int| 0 <= i < v.len() implies v[i].well_formed() by {
            lemma_tensor_matches_well_formed(v[i], entries, spec_layer_name(slot, i as nat));
        }
    }
    assert(layer_vec_matches(p.rms_att_w@, entries, LayerSlot::InputNorm, layers));
    assert(layer_vec_matches(p.wq@, entries, LayerSlot::QProj, layers));
    assert(layer_vec_matches(p.wk@, entries, LayerSlot::KProj, layers));
    assert(layer_vec_matches(p.wv@, entries, LayerSlot::VProj, layers));
    assert(layer_vec_matches(p.wo@, entries, LayerSlot::OProj, layers));
    assert(layer_vec_matches(p.rms_ffn_w@, entries, LayerSlot::PostAttnNorm, layers));
    assert(layer_vec_matches(p.w_up@, entries, LayerSlot::UpProj, layers));
    assert(layer_vec_matches(p.w_gate@, entries, LayerSlot::GateProj, layers));
    assert(layer_vec_matches(p.w_down@, entries, LayerSlot::DownProj, layers));
}

/// One tensor per layer, each satisfying the tensor invariant.
pub open spec fn tensor_vec_well_formed<T>(v: Seq<Tensor<T>>, layers: nat) -> bool {
    &&& v.len() == layers
    &&& forall|i: int| 0 <= i < v.len() ==> v[i].well_formed()
}

impl<T> LLamaParams<T> {
    /// Structural soundness of a parameter set for a model of `layers`
    /// layers: every per-layer collection holds exactly one tensor per
    /// layer, and every tensor's data length equals the product of its
    /// shape.
    pub open spec fn well_formed(self, layers: nat) -> bool {
        &&& self.embedding_table.well_formed()
        &&& tensor_vec_well_formed(self.rms_att_w@, layers)
        &&& tensor_vec_well_formed(self.wq@, layers)
        &&& tensor_vec_well_formed(self.wk@, layers)
        &&& tensor_vec_well_formed(self.wv@, layers)
        &&& tensor_vec_well_formed(self.wo@, layers)
        &&& tensor_vec_well_formed(self.rms_ffn_w@, layers)
        &&& tensor_vec_well_formed(self.w_up@, layers)
        &&& tensor_vec_well_formed(self.w_gate@, layers)
        &&& tensor_vec_well_formed(self.w_down@, layers)
        &&& self.rms_out_w.well_formed()
        &&& self.lm_head.well_formed()
    }
}

/// Fetches the entry stored under `name` and decodes it into a tensor.
/// Fails with `NotFound` exactly when the container lacks the name,
/// and with `MalformedTensor` exactly when the entry is present but
/// its bytes do not fit its shape; either error carries the name.
pub fn get_tensor(st: &safetensors::SafeTensors, name: &str) -> (r: Result<Tensor<u32>, LoadError>)
    ensures
        r is Ok <==> entry_ok(st_entries(*st), name@),
        r matches Ok(t) ==> tensor_matches(t, st_entries(*st), name@),
        r matches Err(e) ==> entry_err(st_entries(*st), name@, e),
{
    match lookup(st, name) {
        None => Err(LoadError::NotFound(name.to_owned())),
        Some((bytes, shape)) => decode_entry(name, bytes, shape),
    }
}

/// Loads the tensors of one per-layer slot for layers `0..layers`, in
/// ascending layer order, failing on the first layer whose entry is
/// absent or undecodable.
fn load_layer_slot(st: &safetensors::SafeTensors, slot: LayerSlot, layers: usize) -> (r: Result<
    Vec<Tensor<u32>>,
    LoadError,
>)
    ensures
        r is Ok <==> (forall|i: int|
            0 <= i < layers ==> #[trigger] entry_ok(st_entries(*st), spec_layer_name(slot, i as nat))),
        r matches Ok(v) ==> layer_vec_matches(v@, st_entries(*st), slot, layers as nat),
        r matches Err(e) ==> first_bad(st_entries(*st), slot_names(slot, layers as nat)) matches Some(
            n,
        ) && entry_err(st_entries(*st), n, e),
{
    let ghost entries = st_entries(*st);
    let ghost names = slot_names(slot, layers as nat);
    let mut v: Vec<Tensor<u32>> = Vec::new();
    let mut i: usize = 0;
    while i < layers
        invariant
            i <= layers,
            v@.len() == i,
            entries == st_entries(*st),
            names == slot_names(slot, layers as nat),
            forall|j: int| 0 <= j < i ==> #[trigger] entry_ok(entries, spec_layer_name(slot, j as nat)),
            forall|j: int|
                0 <= j < i ==> tensor_matches(v@[j], entries, spec_layer_name(slot, j as nat)),
        decreases layers - i,
    {
        let name = layer_name(slot, i);
        match get_tensor(st, name.as_str()) {
            Ok(t) => {
                v.push(t);
            },
            Err(e) => {
                proof {
                    assert(names[i as int] == spec_layer_name(slot, i as nat));
                    assert forall|j: int| 0 <= j < i implies entry_ok(entries, names[j]) by {
                        assert(names[j] == spec_layer_name(slot, j as nat));
                        assert(entry_ok(entries, spec_layer_name(slot, j as nat)));
                    }
                    lemma_first_bad_at(entries, names, i as int);
                }
                return Err(e);
            },
        }
        i += 1;
    }
    Ok(v)
}

impl LLamaParams<u32> {
    /// Loads the whole parameter set from a parsed weight container,
    /// driven by the configuration's layer count.  Succeeds exactly
    /// when every required entry is present and decodable; otherwise
    /// fails with the error of the first bad entry in resolution
    /// order, and no parameter set is returned.
    pub fn from_safetensors(st: &safetensors::SafeTensors, config: &LlamaConfig) -> (r: Result<
        Self,
        LoadError,
    >)
        ensures
            r is Ok <==> loadable(st_entries(*st), config.num_hidden_layers as nat),
            r matches Ok(p) ==> {
                &&& params_match(p, st_entries(*st), config.num_hidden_layers as nat)
                &&& p.well_formed(config.num_hidden_layers as nat)
            },
            r matches Err(e) ==> first_bad_name(st_entries(*st), config.num_hidden_layers as nat)
                matches Some(n) && entry_err(st_entries(*st), n, e),
    {
        let ghost entries = st_entries(*st);
        let layers = config.num_hidden_layers;
        let ghost layers_n = layers as nat;
        proof {
            lemma_slot_first_bad(entries, LayerSlot::InputNorm, layers_n);
            lemma_slot_first_bad(entries, LayerSlot::QProj, layers_n);
            lemma_slot_first_bad(entries, LayerSlot::KProj, layers_n);
            lemma_slot_first_bad(entries, LayerSlot::VProj, layers_n);
            lemma_slot_first_bad(entries, LayerSlot::OProj, layers_n);
            lemma_slot_first_bad(entries, LayerSlot::PostAttnNorm, layers_n);
            lemma_slot_first_bad(entries, LayerSlot::UpProj, layers_n);
            lemma_slot_first_bad(entries, LayerSlot::GateProj, layers_n);
            lemma_slot_first_bad(entries, LayerSlot::DownProj, layers_n);
        }
        let embedding_table = match get_tensor(st, "lm_head.weight") {
            Ok(t) => t,
            Err(e) => { return Err(e); },
        };
        let rms_att_w = match load_layer_slot(st, LayerSlot::InputNorm, layers) {
            Ok(v) => v,
            Err(e) => { return Err(e); },
        };
        let wq = match load_layer_slot(st, LayerSlot::QProj, layers) {
            Ok(v) => v,
            Err(e) => { return Err(e); },
        };
        let wk = match load_layer_slot(st, LayerSlot::KProj, layers) {
            Ok(v) => v,
            Err(e) => { return Err(e); },
        };
        let wv = match load_layer_slot(st, LayerSlot::VProj, layers) {
            Ok(v) => v,
            Err(e) => { return Err(e); },
        };
        let wo = match load_layer_slot(st, LayerSlot::OProj, layers) {
            Ok(v) => v,
            Err(e) => { return Err(e); },
        };
        let rms_ffn_w = match load_layer_slot(st, LayerSlot::PostAttnNorm, layers) {
            Ok(v) => v,
            Err(e) => { return Err(e); },
        };
        let w_up = match load_layer_slot(st, LayerSlot::UpProj, layers) {
            Ok(v) => v,
            Err(e) => { return Err(e); },
        };
        let w_gate = match load_layer_slot(st, LayerSlot::GateProj, layers) {
            Ok(v) => v,
            Err(e) => { return Err(e); },
        };
        let w_down = match load_layer_slot(st, LayerSlot::DownProj, layers) {
            Ok(v) => v,
            Err(e) => { return Err(e); },
        };
        let rms_out_w = match get_tensor(st, "model.norm.weight") {
            Ok(t) => t,
            Err(e) => { return Err(e); },
        };
        let lm_head = match get_tensor(st, "lm_head.weight") {
            Ok(t) => t,
            Err(e) => { return Err(e); },
        };
        let p = LLamaParams {
            embedding_table,
            rms_att_w,
            wq,
            wk,
            wv,
            wo,
            rms_ffn_w,
            w_up,
            w_gate,
            w_down,
            rms_out_w,
            lm_head,
        };
        proof {
            assert forall|slot: LayerSlot, i: int| 0 <= i < layers_n implies #[trigger] entry_ok(
                entries,
                spec_layer_name(slot, i as nat),
            ) by {
                match slot {
                    LayerSlot::InputNorm => assert(entry_ok(
                        entries,
                        spec_layer_name(LayerSlot::InputNorm, i as nat),
                    )),
                    LayerSlot::QProj => assert(entry_ok(
                        entries,
                        spec_layer_name(LayerSlot::QProj, i as nat),
                    )),
                    LayerSlot::KProj => assert(entry_ok(
                        entries,
                        spec_layer_name(LayerSlot::KProj, i as nat),
                    )),
                    LayerSlot::VProj => assert(entry_ok(
                        entries,
                        spec_layer_name(LayerSlot::VProj, i as nat),
                    )),
                    LayerSlot::OProj => assert(entry_ok(
                        entries,
                        spec_layer_name(LayerSlot::OProj, i as nat),
                    )),
                    LayerSlot::PostAttnNorm => assert(entry_ok(
                        entries,
                        spec_layer_name(LayerSlot::PostAttnNorm, i as nat),
                    )),
                    LayerSlot::UpProj => assert(entry_ok(
                        entries,
                        spec_layer_name(LayerSlot::UpProj, i as nat),
                    )),
                    LayerSlot::GateProj => assert(entry_ok(
                        entries,
                        spec_layer_name(LayerSlot::GateProj, i as nat),
                    )),
                    LayerSlot::DownProj => assert(entry_ok(
                        entries,
                        spec_layer_name(LayerSlot::DownProj, i as nat),
                    )),
                }
            }
            assert(params_match(p, entries, layers_n));
            lemma_params_match_well_formed(p, entries, layers_n);
        }
        Ok(p)
    }
}

} // verus!
