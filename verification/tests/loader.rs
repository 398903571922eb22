//! End-to-end tests of the weight loader against real containers.

use llama_params::decode::decode_entry;
use llama_params::error::LoadError;
use llama_params::names::layer_name;
use llama_params::names::LayerSlot;
use llama_params::params::LLamaParams;
use llama_params::params::LlamaConfig;
use llama_params::tensor::Tensor;
use safetensors::tensor::TensorView;
use safetensors::Dtype;
use safetensors::SafeTensors;

fn f32s_to_bytes(values: &[f32]) -> Vec<u8> {
    let mut out = Vec::new();
    for v in values {
        out.extend_from_slice(&v.to_le_bytes());
    }
    out
}

fn words_to_f32s(words: &[u32]) -> Vec<f32> {
    words.iter().map(|w| f32::from_bits(*w)).collect()
}

/// Serializes the given (name, shape, float values) entries into a
/// container and returns its bytes.
fn container(entries: &[(&str, Vec<usize>, Vec<f32>)]) -> Vec<u8> {
    let byte_bufs: Vec<Vec<u8>> = entries.iter().map(|(_, _, v)| f32s_to_bytes(v)).collect();
    let views: Vec<(String, TensorView)> = entries
        .iter()
        .zip(byte_bufs.iter())
        .map(|((name, shape, _), bytes)| {
            (
                name.to_string(),
                TensorView::new(Dtype::F32, shape.clone(), bytes).unwrap(),
            )
        })
        .collect();
    safetensors::serialize(views, None).unwrap()
}

/// The per-layer entries of one layer, each with a value derived from
/// the layer index so tests can tell layers apart.
fn layer_entries(i: usize) -> Vec<(String, Vec<usize>, Vec<f32>)> {
    let base = (i as f32) * 100.0;
    vec![
        (format!("model.layers.{}.input_layernorm.weight", i), vec![2], vec![base + 1.0, base + 1.5]),
        (format!("model.layers.{}.self_attn.q_proj.weight", i), vec![2, 2], vec![base + 2.0; 4]),
        (format!("model.layers.{}.self_attn.k_proj.weight", i), vec![2, 2], vec![base + 3.0; 4]),
        (format!("model.layers.{}.self_attn.v_proj.weight", i), vec![2, 2], vec![base + 4.0; 4]),
        (format!("model.layers.{}.self_attn.o_proj.weight", i), vec![2, 2], vec![base + 5.0; 4]),
        (format!("model.layers.{}.post_attention_layernorm.weight", i), vec![2], vec![base + 6.0, base + 6.5]),
        (format!("model.layers.{}.mlp.up_proj.weight", i), vec![3, 2], vec![base + 7.0; 6]),
        (format!("model.layers.{}.mlp.gate_proj.weight", i), vec![3, 2], vec![base + 8.0; 6]),
        (format!("model.layers.{}.mlp.down_proj.weight", i), vec![2, 3], vec![base + 9.0; 6]),
    ]
}

/// A complete container for `layers` layers, minus any entry whose
/// name is in `omit`.
fn full_container(layers: usize, omit: &[&str]) -> Vec<u8> {
    let mut entries: Vec<(String, Vec<usize>, Vec<f32>)> = vec![
        ("lm_head.weight".to_string(), vec![4, 2], vec![0.5; 8]),
        ("model.norm.weight".to_string(), vec![2], vec![9.0, 9.5]),
    ];
    for i in 0..layers {
        entries.extend(layer_entries(i));
    }
    let kept: Vec<(&str, Vec<usize>, Vec<f32>)> = entries
        .iter()
        .filter(|(name, _, _)| !omit.contains(&name.as_str()))
        .map(|(name, shape, vals)| (name.as_str(), shape.clone(), vals.clone()))
        .collect();
    container(&kept)
}

fn tensor_floats(t: &Tensor<u32>) -> Vec<f32> {
    words_to_f32s(&t.data)
}

#[test]
fn tensor_new_keeps_data_and_shape() {
    let t = Tensor::new(vec![1u32, 2, 3, 4, 5, 6], vec![2, 3]);
    assert_eq!(t.data, vec![1u32, 2, 3, 4, 5, 6]);
    assert_eq!(t.shape, vec![2, 3]);
}

#[test]
fn round_trip_known_floats() {
    let values = [0.0f32, 1.5, -2.25, 3.1415927, f32::MIN, f32::MAX, 1.0e-38];
    let bytes = f32s_to_bytes(&values);
    let t = decode_entry("x", bytes, vec![7]).unwrap();
    assert_eq!(t.data.len(), 7);
    for (word, orig) in t.data.iter().zip(values.iter()) {
        assert_eq!(*word, orig.to_bits());
    }
}

#[test]
fn decode_scalar_entry() {
    let bytes = f32s_to_bytes(&[42.0f32]);
    let t = decode_entry("s", bytes, vec![]).unwrap();
    assert_eq!(t.data, vec![42.0f32.to_bits()]);
    assert!(t.shape.is_empty());
}

#[test]
fn decode_zero_dimension() {
    let t = decode_entry("z", Vec::new(), vec![0, 5]).unwrap();
    assert!(t.data.is_empty());
    assert_eq!(t.shape, vec![0, 5]);
}

#[test]
fn decode_rejects_unaligned_length() {
    let r = decode_entry("t", vec![0u8; 6], vec![6]);
    assert_eq!(r.unwrap_err(), LoadError::MalformedTensor("t".to_string()));
}

#[test]
fn decode_rejects_count_mismatch() {
    let bytes = f32s_to_bytes(&[1.0f32, 2.0, 3.0]);
    assert_eq!(bytes.len(), 12);
    let r = decode_entry("model.norm.weight", bytes, vec![4]);
    assert_eq!(
        r.unwrap_err(),
        LoadError::MalformedTensor("model.norm.weight".to_string())
    );
}

#[test]
fn layer_names_follow_convention() {
    assert_eq!(
        layer_name(LayerSlot::QProj, 0),
        "model.layers.0.self_attn.q_proj.weight"
    );
    assert_eq!(
        layer_name(LayerSlot::InputNorm, 1),
        "model.layers.1.input_layernorm.weight"
    );
    assert_eq!(
        layer_name(LayerSlot::DownProj, 12),
        "model.layers.12.mlp.down_proj.weight"
    );
    assert_eq!(
        layer_name(LayerSlot::PostAttnNorm, 105),
        "model.layers.105.post_attention_layernorm.weight"
    );
}

#[test]
fn load_two_layers() {
    let file = full_container(2, &[]);
    let st = SafeTensors::deserialize(&file).unwrap();
    let config = LlamaConfig { num_hidden_layers: 2 };
    let p = LLamaParams::from_safetensors(&st, &config).unwrap();

    for v in [
        &p.rms_att_w, &p.wq, &p.wk, &p.wv, &p.wo, &p.rms_ffn_w, &p.w_up, &p.w_gate, &p.w_down,
    ] {
        assert_eq!(v.len(), 2);
    }
    // index 0 holds layer 0's values, index 1 layer 1's
    assert_eq!(tensor_floats(&p.rms_att_w[0]), vec![1.0, 1.5]);
    assert_eq!(tensor_floats(&p.rms_att_w[1]), vec![101.0, 101.5]);
    assert_eq!(tensor_floats(&p.wq[0]), vec![2.0; 4]);
    assert_eq!(tensor_floats(&p.wq[1]), vec![102.0; 4]);
    assert_eq!(tensor_floats(&p.wk[1]), vec![103.0; 4]);
    assert_eq!(tensor_floats(&p.wv[0]), vec![4.0; 4]);
    assert_eq!(tensor_floats(&p.wo[1]), vec![105.0; 4]);
    assert_eq!(tensor_floats(&p.rms_ffn_w[0]), vec![6.0, 6.5]);
    assert_eq!(tensor_floats(&p.w_up[1]), vec![107.0; 6]);
    assert_eq!(tensor_floats(&p.w_gate[0]), vec![8.0; 6]);
    assert_eq!(tensor_floats(&p.w_down[1]), vec![109.0; 6]);
    assert_eq!(p.wq[0].shape, vec![2, 2]);
    assert_eq!(p.w_up[1].shape, vec![3, 2]);

    // fixed slots, with embedding table and output head tied to the
    // same entry but independently owned
    assert_eq!(tensor_floats(&p.embedding_table), vec![0.5; 8]);
    assert_eq!(tensor_floats(&p.lm_head), vec![0.5; 8]);
    assert_eq!(p.embedding_table.shape, vec![4, 2]);
    assert_eq!(p.lm_head.shape, vec![4, 2]);
    assert_eq!(tensor_floats(&p.rms_out_w), vec![9.0, 9.5]);
}

#[test]
fn load_missing_q_proj_fails_not_found() {
    let file = full_container(2, &["model.layers.0.self_attn.q_proj.weight"]);
    let st = SafeTensors::deserialize(&file).unwrap();
    let config = LlamaConfig { num_hidden_layers: 2 };
    let r = LLamaParams::from_safetensors(&st, &config);
    assert_eq!(
        r.unwrap_err(),
        LoadError::NotFound("model.layers.0.self_attn.q_proj.weight".to_string())
    );
}

#[test]
fn load_missing_final_norm_fails_not_found() {
    let file = full_container(1, &["model.norm.weight"]);
    let st = SafeTensors::deserialize(&file).unwrap();
    let config = LlamaConfig { num_hidden_layers: 1 };
    let r = LLamaParams::from_safetensors(&st, &config);
    assert_eq!(
        r.unwrap_err(),
        LoadError::NotFound("model.norm.weight".to_string())
    );
}

#[test]
fn load_more_layers_than_stored_fails_not_found() {
    let file = full_container(2, &[]);
    let st = SafeTensors::deserialize(&file).unwrap();
    let config = LlamaConfig { num_hidden_layers: 3 };
    let r = LLamaParams::from_safetensors(&st, &config);
    assert_eq!(
        r.unwrap_err(),
        LoadError::NotFound("model.layers.2.input_layernorm.weight".to_string())
    );
}

#[test]
fn load_entry_with_wrong_width_fails_malformed() {
    // a 16-bit entry is stored under a name the loader decodes as
    // 32-bit scalars: 8 bytes give 2 words, but the shape wants 4
    let half_bytes: Vec<u8> = vec![0, 60, 0, 64, 0, 66, 0, 68];
    let mut entries: Vec<(String, TensorView)> = Vec::new();
    let emb = f32s_to_bytes(&[0.5f32; 8]);
    let norm = f32s_to_bytes(&[9.0f32, 9.5]);
    let lay = layer_entries(0);
    let lay_bytes: Vec<Vec<u8>> = lay.iter().map(|(_, _, v)| f32s_to_bytes(v)).collect();
    entries.push((
        "lm_head.weight".to_string(),
        TensorView::new(Dtype::F32, vec![4, 2], &emb).unwrap(),
    ));
    entries.push((
        "model.norm.weight".to_string(),
        TensorView::new(Dtype::F32, vec![2], &norm).unwrap(),
    ));
    for ((name, shape, _), bytes) in lay.iter().zip(lay_bytes.iter()) {
        if name != "model.layers.0.self_attn.v_proj.weight" {
            entries.push((
                name.clone(),
                TensorView::new(Dtype::F32, shape.clone(), bytes).unwrap(),
            ));
        }
    }
    entries.push((
        "model.layers.0.self_attn.v_proj.weight".to_string(),
        TensorView::new(Dtype::F16, vec![4], &half_bytes).unwrap(),
    ));
    let file = safetensors::serialize(entries, None).unwrap();
    let st = SafeTensors::deserialize(&file).unwrap();
    let config = LlamaConfig { num_hidden_layers: 1 };
    let r = LLamaParams::from_safetensors(&st, &config);
    assert_eq!(
        r.unwrap_err(),
        LoadError::MalformedTensor("model.layers.0.self_attn.v_proj.weight".to_string())
    );
}

#[test]
fn get_tensor_present_and_absent() {
    let file = container(&[("a.weight", vec![2], vec![1.25f32, -8.0])]);
    let st = SafeTensors::deserialize(&file).unwrap();
    let t = llama_params::params::get_tensor(&st, "a.weight").unwrap();
    assert_eq!(tensor_floats(&t), vec![1.25, -8.0]);
    assert_eq!(t.shape, vec![2]);
    let r = llama_params::params::get_tensor(&st, "b.weight");
    assert_eq!(r.unwrap_err(), LoadError::NotFound("b.weight".to_string()));
}

#[test]
fn error_reports_offending_name() {
    let e = LoadError::NotFound("model.norm.weight".to_string());
    assert_eq!(e.name(), "model.norm.weight");
    let m = LoadError::MalformedTensor("lm_head.weight".to_string());
    assert_eq!(m.name(), "lm_head.weight");
}
