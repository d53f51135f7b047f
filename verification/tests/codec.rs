use qingjian::codec::{decode_row, encode, normalize, BOS, EOS, OFFSET, PAD, UNK, VOCAB_SIZE};
use qingjian::corrector::{
    find_corrector, greedy_start, greedy_step, nominations, without_bos, source_ids, CorrectorConfig, CONFIG_FILE, MAX_INPUT_LETTERS,
    WEIGHTS_FILE,
};

#[test]
fn codec_round_trips_and_stops_at_eos() {
    assert_eq!(encode("zhong"), vec![29, 11, 18, 17, 10]);
    assert_eq!(decode_row(&encode("zhongguo")), "zhongguo");
    assert_eq!(decode_row(&[BOS, 11, EOS, 12]), "h");
    assert_eq!(decode_row(&[PAD, BOS, UNK]), "");
    assert_eq!(normalize(" Zhong Guo\n"), "zhongguo");
}

#[test]
fn encode_maps_everything_else_to_unk() {
    assert_eq!(encode("a'Z 1"), vec![OFFSET, UNK, UNK, UNK, UNK]);
    // a two-byte character is two unknown bytes
    assert_eq!(encode("é"), vec![UNK, UNK]);
    assert!(encode("qwertyuiopasdfghjklzxcvbnm").iter().all(|&id| id >= OFFSET && id < VOCAB_SIZE));
}

#[test]
fn decode_skips_out_of_vocabulary_ids() {
    assert_eq!(decode_row(&[OFFSET, VOCAB_SIZE, 1000, OFFSET + 25]), "az");
    assert_eq!(decode_row(&[]), "");
    assert_eq!(decode_row(&[EOS, OFFSET]), "");
}

#[test]
fn normalize_is_idempotent_on_examples() {
    for text in ["  Ni Hao\t", "ZHONG\u{3000}guo", "", "已经 OK"] {
        let once = normalize(text);
        assert_eq!(normalize(&once), once);
    }
    assert_eq!(normalize("ZHONG\u{3000}guo"), "zhongguo");
    assert_eq!(normalize("已经 OK"), "已经ok");
}

#[test]
fn source_ids_frames_the_input() {
    assert_eq!(source_ids(" Ni hao"), Some(vec![BOS, 17, 12, 11, 4, 18, EOS]));
    assert_eq!(source_ids(" \n\t"), None);
    // input that does not look like pinyin gets no nomination
    assert_eq!(source_ids("ni3hao"), None);
    assert_eq!(source_ids("xi'an"), None);
    assert_eq!(source_ids("已经"), None);
    assert_eq!(source_ids(""), None);
    let longest = "a".repeat(MAX_INPUT_LETTERS);
    assert_eq!(source_ids(&longest).map(|ids| ids.len()), Some(MAX_INPUT_LETTERS + 2));
    let too_long = "a".repeat(MAX_INPUT_LETTERS + 1);
    assert_eq!(source_ids(&too_long), None);
}

#[test]
fn nominations_keep_only_nonempty_text() {
    assert_eq!(nominations(Some("nihao".to_owned())), vec!["nihao".to_owned()]);
    assert!(nominations(Some(String::new())).is_empty());
    assert!(nominations(None).is_empty());
}

#[test]
fn corrector_folder_needs_both_files() {
    assert_eq!(CONFIG_FILE, "config.json");
    assert_eq!(WEIGHTS_FILE, "model.safetensors");
    assert_eq!(find_corrector("/data/corrector", true, true), Some("/data/corrector".to_owned()));
    assert_eq!(find_corrector("/data/corrector", true, false), None);
    assert_eq!(find_corrector("/data/corrector", false, true), None);
}

fn config(d_model: usize, nhead: usize, max_len: usize, vocab_size: usize) -> CorrectorConfig {
    CorrectorConfig { d_model, nhead, enc_layers: 2, dec_layers: 2, dim_ff: 512, max_len, vocab_size }
}

#[test]
fn corrector_config_checks_each_rule() {
    let good = config(128, 4, 64, 30);
    assert_eq!(good.clone().checked(), Ok(good));
    assert_eq!(config(128, 4, 64, 31).checked(), Err("corrector vocab must be 30"));
    assert_eq!(config(128, 3, 64, 30).checked(), Err("d_model must be divisible by nhead"));
    assert_eq!(config(128, 0, 64, 30).checked(), Err("d_model must be divisible by nhead"));
    assert_eq!(config(0, 4, 64, 30).checked(), Err("d_model must be divisible by nhead"));
    assert_eq!(config(128, 4, 0, 30).checked(), Err("max_len must be positive"));
    // the first broken rule is the one reported
    assert_eq!(config(0, 0, 0, 7).checked(), Err("corrector vocab must be 30"));
}

#[test]
fn greedy_decoding_bookkeeping() {
    let (mut rows, mut finished) = greedy_start(2);
    assert_eq!(rows, vec![vec![BOS], vec![BOS]]);
    assert_eq!(finished, vec![false, false]);
    assert!(!greedy_step(&mut rows, &mut finished, &[11, EOS]));
    assert_eq!(finished, vec![false, true]);
    // a finished row keeps taking ids until every row is done
    assert!(greedy_step(&mut rows, &mut finished, &[EOS, 12]));
    assert_eq!(rows, vec![vec![BOS, 11, EOS], vec![BOS, EOS, 12]]);
    let out = without_bos(rows);
    assert_eq!(out, vec![vec![11, EOS], vec![EOS, 12]]);
    assert_eq!(decode_row(&out[0]), "h");
    assert_eq!(decode_row(&out[1]), "");
    assert_eq!(without_bos(vec![vec![]]), vec![Vec::<u32>::new()]);
}
