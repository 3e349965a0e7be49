use melodium_libs::ml::generation::{generated_tokens, keep_generating, repeat_window};
use melodium_libs::ml::remote::{continuous_report, image_mime, provider_settings, segments_to_transcribe, ImageMime, Sent};
use melodium_libs::ml::repository::{is_weights_file, nonempty, repo_kind, sorted_paths, weight_files, RepoKind};
use melodium_libs::ml::transcription::{decoded_tokens, prompt_tokens, Windower};

#[test]
fn generation_stops_at_end_of_sequence_or_limit() {
    let samples = vec![5u32, 6, 2, 7, 8];
    assert_eq!(generated_tokens(&samples, 2, 10), vec![5, 6, 2]);
    assert_eq!(generated_tokens(&samples, 2, 2), vec![5, 6]);
    assert_eq!(generated_tokens(&samples, 2, 0), Vec::<u32>::new());
    assert_eq!(generated_tokens(&samples, 2, 1), vec![5]);
    assert_eq!(generated_tokens(&samples, 99, 10), samples);
    assert_eq!(generated_tokens(&vec![], 2, 10), Vec::<u32>::new());
    assert!(keep_generating(1, 5, 2, 3));
    assert!(!keep_generating(3, 5, 2, 3));
    assert!(!keep_generating(1, 2, 2, 3));
}

#[test]
fn repeat_penalty_window() {
    assert_eq!(repeat_window(10, true, 4), Some(6));
    assert_eq!(repeat_window(3, true, 4), None);
    assert_eq!(repeat_window(10, false, 4), None);
}

#[test]
fn transcription_tokens() {
    assert_eq!(prompt_tokens(1, 9, 3, 4), vec![1, 9, 3, 4]);
    assert_eq!(prompt_tokens(1, u32::MAX, 3, 4), vec![1, 3, 4]);
    assert_eq!(decoded_tokens(&vec![1, 2], &vec![9, 8, 50257, 7], 50257, 10), vec![1, 2, 9, 8]);
    assert_eq!(decoded_tokens(&vec![1], &vec![9, 8, 7], 50257, 2), vec![1, 9, 8]);
}

#[test]
fn audio_windows() {
    let mut w: Windower<i16> = Windower::new(3);
    assert!(w.push(&vec![1, 2]).is_empty());
    assert_eq!(w.push(&vec![3, 4, 5, 6, 7]), vec![vec![1, 2, 3], vec![4, 5, 6]]);
    assert_eq!(w.buffer, vec![7]);
    assert_eq!(w.finish(), Some(vec![7]));
    assert_eq!(w.finish(), None);
}

#[test]
fn image_types() {
    assert!(matches!(image_mime("JPG"), Ok(ImageMime::Jpeg)));
    assert!(matches!(image_mime("jpeg"), Ok(ImageMime::Jpeg)));
    assert!(matches!(image_mime("Png"), Ok(ImageMime::Png)));
    assert!(matches!(image_mime("gif"), Ok(ImageMime::Gif)));
    assert!(matches!(image_mime("WEBP"), Ok(ImageMime::Webp)));
    match image_mime("BMP") {
        Err(e) => assert_eq!(e, "unsupported mime type: bmp"),
        Ok(_) => panic!("bmp accepted"),
    }
}

#[test]
fn provider_settings_keep_given_values() {
    let s = provider_settings(None, "".to_string(), "m".to_string(), "".to_string(), Some(5_000_000_000), Some(30));
    assert!(s.api_key.is_none() && s.base_url.is_none() && s.system.is_none());
    assert_eq!(s.model, Some("m".to_string()));
    assert_eq!(s.max_tokens, Some(705_032_704));
    assert_eq!(s.timeout, Some(30));
}

#[test]
fn continuous_treatments_go_on_after_a_failure() {
    let r = continuous_report(true, &vec![Err("quota".to_string()), Ok("b".to_string())]);
    assert_eq!(r.len(), 2);
    assert!(matches!(&r[0], Sent::Failed(m) if m == "quota"));
    assert!(matches!(&r[1], Sent::Output(o) if o == "b"));
    let r = continuous_report(false, &vec![Ok("a".to_string()), Ok("b".to_string())]);
    assert_eq!(r.len(), 1);
    assert!(matches!(&r[0], Sent::Failed(m) if m == "provider not initialized"));
    assert!(continuous_report(false, &vec![]).is_empty());
    let segments = segments_to_transcribe(&vec![vec![1u8], vec![], vec![2u8, 3]]);
    assert_eq!(segments, vec![vec![1u8], vec![2u8, 3]]);
}

#[test]
fn repositories() {
    assert!(repo_kind("dataset") == RepoKind::Dataset);
    assert!(repo_kind("space") == RepoKind::Space);
    assert!(repo_kind("model") == RepoKind::Model);
    assert!(repo_kind("anything") == RepoKind::Model);
    assert_eq!(nonempty("".to_string()), None);
    assert_eq!(nonempty("tok".to_string()), Some("tok".to_string()));
    assert!(is_weights_file("model-00001.safetensors"));
    assert!(!is_weights_file("safetensors"));
    assert!(!is_weights_file("tokenizer.json"));
    let names = vec!["config.json".to_string(), "b.safetensors".to_string(), "a.safetensors".to_string()];
    assert_eq!(weight_files(&names), vec!["b.safetensors".to_string(), "a.safetensors".to_string()]);
    assert_eq!(sorted_paths(vec!["/c/b".to_string(), "/c/a".to_string(), "/b".to_string()]), vec!["/b".to_string(), "/c/a".to_string(), "/c/b".to_string()]);
}
