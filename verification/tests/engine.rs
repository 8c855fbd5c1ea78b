use av_core::config::{ConfigError, ScannerConfig};
use av_core::engine::{
    evaluate_signatures, find_include, fuse_outcome, included_names, is_plain_rule_text,
    plain_includes,
    read_limit, scan_path, ContentSample, IncludeFile, MetadataValue, RuleSource, ScanContext,
    ScanError, SignatureMatch, YaraEngine, READ_CAP, RULE_PATHS, SCAN_TIMEOUT_SECS,
};
use av_core::entropy::EntropyReport;
use av_core::heuristics::Score;
use av_core::{RecommendedAction, Scanner};

const EICAR_TEST_STRING: &str = r"X5O!P%@AP[4\PZX54(P^)7CC)7}$EICAR-STANDARD-ANTIVIRUS-TEST-FILE!$H+H*";

const EXAMPLE_RULES: &str = r#"
rule EICAR_Test_File
{
    meta:
        description = "EICAR antivirus test file"
        severity = 10
        test_only = true
    strings:
        $eicar = "X5O!P%@AP[4\\PZX54(P^)7CC)7}$EICAR-STANDARD-ANTIVIRUS-TEST-FILE!$H+H*"
    condition:
        $eicar
}

rule UPX_Packed
{
    meta:
        description = "UPX packer marker"
    strings:
        $upx = "UPX!"
    condition:
        $upx
}
"#;

fn text(rules: &str) -> Option<RuleSource> {
    Some(RuleSource::new(rules.to_string()))
}

fn file(name: &str, rules: &str) -> IncludeFile {
    IncludeFile { from: None, name: name.to_string(), text: rules.to_string() }
}

fn file_in(from: &str, name: &str, rules: &str) -> IncludeFile {
    IncludeFile { from: Some(from.to_string()), name: name.to_string(), text: rules.to_string() }
}

fn example_sources() -> Vec<Option<RuleSource>> {
    vec![None, None, text(EXAMPLE_RULES)]
}

#[test]
fn validates_configuration_before_scanning() {
    let cfg = ScannerConfig::default();
    let scanner = Scanner::new(cfg).expect("config should validate");
    let empty = scanner
        .scan_path("/tmp", &ContentSample::from_bytes(Vec::new()), &[])
        .expect("scan succeeds");
    assert!(matches!(empty.recommended_action, RecommendedAction::Allow));
}

#[test]
fn test_eicar_detection() {
    // Scan with default config
    let config = ScannerConfig::default();
    let scanner = Scanner::new(config).unwrap();
    let sample = ContentSample::from_bytes(EICAR_TEST_STRING.as_bytes().to_vec());

    let outcome = scanner.scan_path("eicar.com", &sample, &example_sources()).unwrap();

    // Should detect EICAR and recommend quarantine
    assert_eq!(outcome.recommended_action, RecommendedAction::Quarantine);
    assert!(!outcome.signatures.is_empty(), "EICAR should trigger signature match");

    // Check that EICAR_Test_File rule matched
    let eicar_match = outcome.signatures.iter().find(|sig| sig.rule.contains("EICAR"));

    assert!(eicar_match.is_some(), "EICAR_Test_File rule should match");
}

#[test]
fn test_clean_file_allows() {
    let config = ScannerConfig::default();
    let scanner = Scanner::new(config).unwrap();
    let sample = ContentSample::from_bytes(b"Hello, world!".to_vec());

    let outcome = scanner.scan_path("clean.txt", &sample, &example_sources()).unwrap();

    // Should allow clean file
    assert_eq!(outcome.recommended_action, RecommendedAction::Allow);
    assert!(outcome.signatures.is_empty());
}

#[test]
fn test_entropy_detection() {
    // Generate high-entropy data (simulated encryption)
    let random_data: Vec<u8> = (0..8192)
        .map(|i| ((i * 137 + 251) % 256) as u8)  // Pseudo-random
        .collect();

    let mut config = ScannerConfig::default();
    config.enable_entropy_analysis = true;

    let scanner = Scanner::new(config).unwrap();
    let outcome = scanner
        .scan_path("encrypted.bin", &ContentSample::from_bytes(random_data), &example_sources())
        .unwrap();

    // High entropy should be detected
    let mean_entropy = outcome.entropy.mean_entropy as f32 / 65536.0;
    assert!(mean_entropy > 7.0, "Expected high entropy, got {}", mean_entropy);
    assert!(!outcome.entropy.suspicious_regions.is_empty(), "Should detect suspicious high-entropy regions");
}

#[test]
fn test_upx_packed_detection() {
    // Create file with ELF header + UPX marker
    let mut data = vec![0x7F, 0x45, 0x4C, 0x46, 0x02, 0x01, 0x01]; // ELF64 header
    data.extend_from_slice(b"UPX!"); // UPX marker
    data.extend_from_slice(&[0u8; 100]); // Padding

    let config = ScannerConfig::default();
    let scanner = Scanner::new(config).unwrap();
    let outcome = scanner
        .scan_path("fake.upx", &ContentSample::from_bytes(data), &example_sources())
        .unwrap();

    // Should detect UPX signature
    if !outcome.signatures.is_empty() {
        let upx_match = outcome.signatures.iter().any(|sig| sig.rule.contains("UPX"));
        assert!(upx_match, "UPX signature should match");
    }
}

#[test]
fn the_upx_marker_is_found_and_quarantined() {
    let mut data = vec![0x7F, 0x45, 0x4C, 0x46, 0x02, 0x01, 0x01];
    data.extend_from_slice(b"UPX!");
    data.extend_from_slice(&[0u8; 100]);
    let scanner = Scanner::new(ScannerConfig::default()).unwrap();
    let outcome = scanner
        .scan_path("fake.upx", &ContentSample::from_bytes(data), &example_sources())
        .unwrap();
    assert_eq!(outcome.signatures.len(), 1);
    assert_eq!(outcome.signatures[0].rule, "UPX_Packed");
    assert_eq!(outcome.signatures[0].namespace, "default");
    assert_eq!(outcome.recommended_action, RecommendedAction::Quarantine);
}

#[test]
fn a_match_carries_the_metadata_of_its_rule() {
    let mut engine = YaraEngine::new();
    engine.load_rules(EXAMPLE_RULES).expect("rules compile");
    assert!(engine.has_rules());
    let found = engine.scan(EICAR_TEST_STRING.as_bytes()).expect("scan succeeds");
    assert_eq!(
        found,
        vec![SignatureMatch {
            rule: "EICAR_Test_File".to_string(),
            namespace: "default".to_string(),
            metadata: vec![
                ("description".to_string(), MetadataValue::Text("EICAR antivirus test file".to_string())),
                ("severity".to_string(), MetadataValue::Integer(10)),
                ("test_only".to_string(), MetadataValue::Boolean(true)),
            ],
        }]
    );
}

#[test]
fn the_outcome_of_a_clean_scan_is_complete() {
    let scanner = Scanner::new(ScannerConfig::default()).unwrap();
    let sample = ContentSample::from_bytes(b"Hello, world!".to_vec());
    let outcome = scanner.scan_path("clean.txt", &sample, &example_sources()).unwrap();
    assert_eq!(outcome.path, "clean.txt");
    assert_eq!(outcome.heuristic_score, Score(400));
    assert_eq!(outcome.entropy.mean_entropy, 208459);
    assert!(outcome.entropy.suspicious_regions.is_empty());
}

#[test]
fn scanning_twice_gives_the_same_outcome() {
    let scanner = Scanner::new(ScannerConfig::default()).unwrap();
    let mut content = EICAR_TEST_STRING.as_bytes().to_vec();
    content.extend((0..8192).map(|i| ((i * 137 + 251) % 256) as u8));
    let sample = ContentSample::from_bytes(content);
    let first = scanner.scan_path("twice.bin", &sample, &example_sources()).unwrap();
    let second = scanner.scan_path("twice.bin", &sample, &example_sources()).unwrap();
    assert_eq!(first.path, second.path);
    assert_eq!(first.signatures, second.signatures);
    assert_eq!(first.heuristic_score, second.heuristic_score);
    assert_eq!(first.entropy, second.entropy);
    assert_eq!(first.recommended_action, second.recommended_action);
    assert_eq!(first.recommended_action, RecommendedAction::Quarantine);
}

#[test]
fn high_entropy_alone_does_not_quarantine() {
    let scanner = Scanner::new(ScannerConfig::default()).unwrap();
    let content: Vec<u8> = (0..8192).map(|i| ((i * 137 + 251) % 256) as u8).collect();
    let outcome = scanner
        .scan_path("encrypted.bin", &ContentSample::from_bytes(content), &example_sources())
        .unwrap();
    assert!(outcome.entropy.mean_entropy > 7 * 65536);
    assert_eq!(outcome.entropy.suspicious_regions, vec![(0, 4096), (4096, 8192)]);
    assert!(outcome.signatures.is_empty());
    assert_eq!(outcome.recommended_action, RecommendedAction::Allow);
}

#[test]
fn entropy_analysis_can_be_switched_off() {
    let mut config = ScannerConfig::default();
    config.enable_entropy_analysis = false;
    let scanner = Scanner::new(config).unwrap();
    let content: Vec<u8> = (0..8192).map(|i| ((i * 137 + 251) % 256) as u8).collect();
    let outcome = scanner
        .scan_path("encrypted.bin", &ContentSample::from_bytes(content), &[])
        .unwrap();
    assert_eq!(outcome.entropy, EntropyReport::default());
}

#[test]
fn without_rules_detection_degrades_to_no_matches() {
    let found = evaluate_signatures(EICAR_TEST_STRING.as_bytes(), &[]).expect("no rules is no failure");
    assert!(found.is_empty());
    let found = evaluate_signatures(EICAR_TEST_STRING.as_bytes(), &[None, None, None]).unwrap();
    assert!(found.is_empty());
}

#[test]
fn rules_that_do_not_compile_are_passed_over() {
    let broken = text("rule broken { condition: ");
    let found = evaluate_signatures(EICAR_TEST_STRING.as_bytes(), &[broken.clone()]).unwrap();
    assert!(found.is_empty());
    let found =
        evaluate_signatures(EICAR_TEST_STRING.as_bytes(), &[broken, text(EXAMPLE_RULES)]).unwrap();
    assert_eq!(found.len(), 1);
    assert_eq!(found[0].rule, "EICAR_Test_File");
}

#[test]
fn the_first_source_that_compiles_is_the_corpus() {
    let never = "rule Never { condition: false }".to_string();
    let found = evaluate_signatures(
        EICAR_TEST_STRING.as_bytes(),
        &[None, text(&never), text(EXAMPLE_RULES)],
    )
    .unwrap();
    assert!(found.is_empty());
}

#[test]
fn an_engine_without_rules_refuses_to_scan() {
    let engine = YaraEngine::new();
    assert!(!engine.has_rules());
    assert_eq!(engine.scan(b"anything"), Err(ScanError::RulesNotLoaded));
    assert!(!YaraEngine::default().has_rules());
}

#[test]
fn a_failed_load_keeps_the_corpus() {
    let mut engine = YaraEngine::new();
    engine.load_rules(EXAMPLE_RULES).unwrap();
    let failed = engine.load_rules("rule broken {");
    assert!(matches!(failed, Err(ScanError::RuleCompilation(_))));
    assert!(engine.has_rules());
    assert_eq!(engine.scan(EICAR_TEST_STRING.as_bytes()).unwrap().len(), 1);
}

#[test]
fn loading_replaces_the_corpus() {
    let mut engine = YaraEngine::new();
    engine.load_rules(EXAMPLE_RULES).unwrap();
    engine.load_rules("rule Always { condition: true }").unwrap();
    let found = engine.scan(EICAR_TEST_STRING.as_bytes()).unwrap();
    assert_eq!(found.len(), 1);
    assert_eq!(found[0].rule, "Always");
    assert!(found[0].metadata.is_empty());
}

#[test]
fn rule_text_that_is_not_plain_is_refused() {
    assert!(is_plain_rule_text(EXAMPLE_RULES));
    assert!(is_plain_rule_text(""));
    assert!(is_plain_rule_text(r#"rule A { strings: $a = "\x7f\x00\\" condition: $a }"#));
    assert!(is_plain_rule_text("rule A { meta: author = \"José\" condition: true }"));
    assert!(!is_plain_rule_text("rule A { condition: \"José\" == \"a\" }"));
    assert!(!is_plain_rule_text("rule A { condition: true }\0"));
    assert!(!is_plain_rule_text(r#"rule A { meta: m = "\xff" condition: true }"#));
    assert!(!is_plain_rule_text(r#"rule A { meta: m = "\x80" condition: true }"#));
    assert!(!is_plain_rule_text(r#"rule A { meta: m = "\xA0" condition: true }"#));
    assert!(is_plain_rule_text(r#"\x"#));
    assert!(is_plain_rule_text(r#"\x7"#));
    assert!(!is_plain_rule_text(r#"\x9"#));
    let mut engine = YaraEngine::new();
    let refused = engine.load_rules(r#"rule A { meta: m = "\xff" condition: true }"#);
    assert!(matches!(refused, Err(ScanError::RuleCompilation(_))));
    assert!(!engine.has_rules());
    assert_eq!(engine.load_rules("rule A { meta: author = \"José\" condition: true }"), Ok(()));
    let found = engine.matches(b"").unwrap();
    assert_eq!(found[0].metadata, vec![("author".to_string(), MetadataValue::Text("José".to_string()))]);
}

#[test]
fn an_include_without_a_file_to_include_is_refused() {
    let mut engine = YaraEngine::new();
    let refused = engine.load_rules("include \"/etc/rules/other.yar\"\nrule A { condition: true }");
    assert!(matches!(refused, Err(ScanError::RuleCompilation(_))));
    let source = RuleSource {
        text: "include \"other.yar\"\nrule A { condition: true }".to_string(),
        includes: vec![file("another.yar", "rule B { condition: true }")],
    };
    assert!(matches!(engine.load_source(&source), Err(ScanError::RuleCompilation(_))));
    assert!(!engine.has_rules());
}

#[test]
fn an_include_is_resolved_from_the_files_handed_in() {
    let source = RuleSource {
        text: "include \"common/upx.yar\"\nrule Always { condition: true }".to_string(),
        includes: vec![
            file_in("common/upx.yar", "eicar.yar", "rule Never { condition: false }"),
            file("common/upx.yar", "include \"eicar.yar\"\nrule Upx { strings: $a = \"UPX!\" condition: $a }"),
            file("common/upx.yar", "rule Shadowed { condition: true }"),
        ],
    };
    let mut engine = YaraEngine::new();
    assert_eq!(engine.load_source(&source), Ok(()));
    let names: Vec<String> = engine.matches(b"..UPX!..").unwrap().into_iter().map(|m| m.rule).collect();
    assert_eq!(names, vec!["Upx".to_string(), "Always".to_string()]);
    let engine = YaraEngine::from_sources(&[text("rule broken {"), Some(source)]);
    assert_eq!(engine.matches(b"nothing").unwrap().len(), 1);
}

#[test]
fn a_file_that_is_not_plain_cannot_be_included() {
    let source = RuleSource {
        text: "include \"meta.yar\"\nrule Always { condition: true }".to_string(),
        includes: vec![file("meta.yar", "rule M { meta: m = \"\\xff\" condition: true }")],
    };
    let mut engine = YaraEngine::new();
    assert!(matches!(engine.load_source(&source), Err(ScanError::RuleCompilation(_))));
    assert!(plain_includes(&source.includes).is_empty());
    // an unused file that is not plain does no harm
    let source = RuleSource {
        text: "rule Always { condition: true }".to_string(),
        includes: vec![file("meta.yar", "caf\u{e9}")],
    };
    assert_eq!(engine.load_source(&source), Ok(()));
}

#[test]
fn the_first_file_of_a_name_is_the_one_included() {
    let files = vec![file("a.yar", "first"), file("b.yar", "second"), file("a.yar", "third")];
    assert_eq!(find_include(&files, "a.yar", None), Some("first".to_string()));
    assert_eq!(find_include(&files, "b.yar", None), Some("second".to_string()));
    assert_eq!(find_include(&files, "c.yar", None), None);
    assert_eq!(find_include(&files, "a.yar", Some("b.yar")), None);
    assert_eq!(find_include(&files, "./a.yar", None), None);
    assert_eq!(find_include(&[], "a.yar", None), None);
    assert_eq!(plain_includes(&files), files);
}

#[test]
fn a_scan_under_an_invalid_configuration_fails_with_the_fault() {
    let mut config = ScannerConfig::default();
    config.heuristic_threshold = 1500;
    let ctx = ScanContext::new("x".to_string());
    let sample = ContentSample::from_bytes(b"x".to_vec());
    let r = scan_path(&config, &ctx, &sample, &[]);
    assert_eq!(r.err(), Some(ScanError::Config(ConfigError::ThresholdOutOfRange)));
    config.heuristic_threshold = 800;
    config.thread_pool_size = 64;
    let r = scan_path(&config, &ctx, &sample, &[]);
    assert_eq!(r.err(), Some(ScanError::Config(ConfigError::PoolSizeOutOfRange)));
    assert_eq!(Scanner::new(config).err(), Some(ConfigError::PoolSizeOutOfRange));
}

#[test]
fn a_small_file_is_read_whole() {
    assert_eq!(read_limit(0), 0);
    assert_eq!(read_limit(13), 13);
    assert_eq!(read_limit(READ_CAP), READ_CAP);
    let sample = ContentSample::from_bytes(b"Hello, world!".to_vec());
    assert_eq!(sample.len(), 13);
    assert_eq!(sample.as_slice(), b"Hello, world!");
}

#[test]
fn a_large_file_is_read_up_to_the_cap() {
    assert_eq!(READ_CAP, 2 * 1024 * 1024);
    assert_eq!(read_limit(READ_CAP + 1), READ_CAP);
    assert_eq!(read_limit(u64::MAX), READ_CAP);
    let content: Vec<u8> = (0..(READ_CAP as usize + 4097)).map(|i| (i % 251) as u8).collect();
    let sample = ContentSample::from_bytes(content.clone());
    assert_eq!(sample.len(), READ_CAP as usize);
    assert_eq!(sample.as_slice(), &content[..READ_CAP as usize]);
}

#[test]
fn a_sample_at_the_cap_is_analysed_in_full_chunks() {
    let content: Vec<u8> = (0..(READ_CAP as usize + 1)).map(|i| ((i * 137 + 251) % 256) as u8).collect();
    let scanner = Scanner::new(ScannerConfig::default()).unwrap();
    let outcome = scanner
        .scan_path("big.bin", &ContentSample::from_bytes(content), &[])
        .unwrap();
    assert_eq!(outcome.entropy.suspicious_regions.len(), 512);
    assert_eq!(outcome.entropy.suspicious_regions[511], (READ_CAP - 4096, READ_CAP));
}

#[test]
fn fusing_findings_gives_the_outcome_record() {
    let config = ScannerConfig::default();
    let ctx = ScanContext::new("/srv/upload.bin".to_string());
    let hit = SignatureMatch {
        rule: "Some_Rule".to_string(),
        namespace: "default".to_string(),
        metadata: Vec::new(),
    };
    let entropy = EntropyReport { mean_entropy: 517734, suspicious_regions: vec![(0, 4096)] };
    let outcome = fuse_outcome(&config, &ctx, b"data", vec![hit.clone()], entropy.clone());
    assert_eq!(outcome.path, "/srv/upload.bin");
    assert_eq!(outcome.signatures, vec![hit]);
    assert_eq!(outcome.heuristic_score, Score(400));
    assert_eq!(outcome.entropy, entropy);
    assert_eq!(outcome.recommended_action, RecommendedAction::Quarantine);
    let clean = fuse_outcome(&config, &ctx, b"data", Vec::new(), EntropyReport::default());
    assert_eq!(clean.recommended_action, RecommendedAction::Allow);
}

#[test]
fn the_corpus_scan_may_take_thirty_seconds() {
    assert_eq!(SCAN_TIMEOUT_SECS, 30);
}

#[test]
fn rule_files_are_looked_for_in_three_places() {
    assert_eq!(
        RULE_PATHS,
        ["rules/production.yar", "/etc/charmedwoa-av/rules/production.yar", "rules/example.yar"]
    );
}

#[test]
fn a_shared_engine_scans_like_a_fresh_one() {
    let engine = YaraEngine::from_sources(&example_sources());
    assert!(engine.has_rules());
    let scanner = Scanner::new(ScannerConfig::default()).unwrap();
    let sample = ContentSample::from_bytes(EICAR_TEST_STRING.as_bytes().to_vec());
    let shared = scanner.scan_with_engine("eicar.com", &sample, &engine).unwrap();
    let fresh = scanner.scan_path("eicar.com", &sample, &example_sources()).unwrap();
    assert_eq!(shared.signatures, fresh.signatures);
    assert_eq!(shared.recommended_action, RecommendedAction::Quarantine);
    assert_eq!(shared.path, "eicar.com");
}

#[test]
fn an_engine_without_rules_matches_nothing() {
    let engine = YaraEngine::from_sources(&[None, text("rule broken {")]);
    assert!(!engine.has_rules());
    assert_eq!(engine.matches(EICAR_TEST_STRING.as_bytes()), Ok(Vec::new()));
    let scanner = Scanner::new(ScannerConfig::default()).unwrap();
    let sample = ContentSample::from_bytes(EICAR_TEST_STRING.as_bytes().to_vec());
    let outcome = scanner.scan_with_engine("eicar.com", &sample, &engine).unwrap();
    assert!(outcome.signatures.is_empty());
    assert_eq!(outcome.recommended_action, RecommendedAction::Allow);
}

#[test]
fn the_summary_has_three_lines() {
    let scanner = Scanner::new(ScannerConfig::default()).unwrap();
    let sample = ContentSample::from_bytes(EICAR_TEST_STRING.as_bytes().to_vec());
    let outcome = scanner.scan_path("eicar.com", &sample, &example_sources()).unwrap();
    assert_eq!(outcome.summary(), "Result: Quarantine\nSignatures: 1\nScore: 0.400");
    let clean = scanner
        .scan_path("clean.txt", &ContentSample::from_bytes(b"Hello, world!".to_vec()), &[])
        .unwrap();
    assert_eq!(clean.summary(), "Result: Allow\nSignatures: 0\nScore: 0.400");
    assert_eq!(RecommendedAction::Monitor.name(), "Monitor");
}

#[test]
fn matches_come_in_the_order_of_the_corpus_and_no_rule_twice() {
    let mut engine = YaraEngine::new();
    engine.load_rules(EXAMPLE_RULES).unwrap();
    let mut data = b"UPX! UPX! ".to_vec();
    data.extend_from_slice(EICAR_TEST_STRING.as_bytes());
    data.extend_from_slice(EICAR_TEST_STRING.as_bytes());
    data.extend_from_slice(b" UPX!");
    let found = engine.matches(&data).unwrap();
    let names: Vec<(&str, &str)> =
        found.iter().map(|m| (m.namespace.as_str(), m.rule.as_str())).collect();
    assert_eq!(names, vec![("default", "EICAR_Test_File"), ("default", "UPX_Packed")]);
    let found = evaluate_signatures(&data, &[None, text(EXAMPLE_RULES)]).unwrap();
    assert_eq!(found.len(), 2);
    assert_eq!(found[0].rule, "EICAR_Test_File");
    assert_eq!(found[1].rule, "UPX_Packed");
}

#[test]
fn a_corpus_of_one_rule_gives_at_most_one_match() {
    let mut engine = YaraEngine::new();
    engine.load_rules("rule Always { condition: true }").unwrap();
    assert_eq!(engine.matches(b"").unwrap().len(), 1);
    assert_eq!(engine.matches(b"anything at all").unwrap().len(), 1);
    engine.load_rules("rule Never { condition: false }").unwrap();
    assert_eq!(engine.matches(b"anything at all"), Ok(Vec::new()));
}

#[test]
fn the_engine_holds_the_first_candidate_that_loads() {
    let never = "rule Never { condition: false }".to_string();
    let always = "rule Always { condition: true }".to_string();
    let broken = "rule broken { condition: ".to_string();
    let not_plain = "rule A { meta: m = \"\\xff\" condition: true }".to_string();
    // the candidates before the first that loads are absent, broken or not plain
    let engine = YaraEngine::from_sources(&[
        None,
        text(&broken),
        text(&not_plain),
        text(&always),
        text(&never),
    ]);
    assert!(engine.has_rules());
    assert_eq!(engine.matches(b"x").unwrap().len(), 1);
    assert_eq!(engine.matches(b"x").unwrap()[0].rule, "Always");
    // a later candidate that loads is not looked at
    let engine = YaraEngine::from_sources(&[text(&never), text(&always)]);
    assert!(engine.has_rules());
    assert!(engine.matches(b"x").unwrap().is_empty());
    // where none loads there is no corpus
    let engine = YaraEngine::from_sources(&[None, text(&broken), text(&not_plain)]);
    assert!(!engine.has_rules());
    assert!(!YaraEngine::from_sources(&[]).has_rules());
}

#[test]
fn text_that_does_not_compile_is_a_compilation_error() {
    let mut engine = YaraEngine::new();
    for text in ["rule broken {", "rule A { condition: undefined_name }", "not a rule", "rule A { condition: true } rule A { condition: true }"] {
        assert!(matches!(engine.load_rules(text), Err(ScanError::RuleCompilation(_))), "text {:?}", text);
        assert!(!engine.has_rules());
    }
    for text in ["", "// nothing but a comment", "rule A { condition: true }"] {
        assert_eq!(engine.load_rules(text), Ok(()), "text {:?}", text);
        assert!(engine.has_rules());
    }
}

#[test]
fn a_scan_with_candidates_that_do_not_load_finds_nothing() {
    let scanner = Scanner::new(ScannerConfig::default()).unwrap();
    let sample = ContentSample::from_bytes(EICAR_TEST_STRING.as_bytes().to_vec());
    let sources = vec![None, text("rule broken {"), text("caf\u{e9}\0")];
    let outcome = scanner.scan_path("eicar.com", &sample, &sources).unwrap();
    assert!(outcome.signatures.is_empty());
    assert_eq!(outcome.recommended_action, RecommendedAction::Allow);
}

#[test]
fn comments_may_hold_any_character() {
    for plain in [
        "// Auteur: Jos\u{e9}\nrule A { condition: true }",
        "  \t// \u{65e5}\u{672c}\u{8a9e} \\xff\nrule A { condition: true }",
        "/*\n * Jos\u{e9} \\xff\n */\nrule A { condition: true }",
        "/* \u{e9} */ rule A { condition: true }",
        "rule A { condition: true }\n// \u{e9}",
        "/* \u{e9} **/\nrule A { condition: true }",
        "// include \"other.yar\" \u{e9}",
        "include \"other.yar\"",
        "rule A { condition: true } // \u{e9}",
        "rule A { condition: true } /* \u{e9} */",
        "rule A { condition: 1 \\ 2 == 0 } // \u{e9}",
        "/* a */ // \u{e9}",
        "\r// \u{e9}",
        "import \"pe\" // \u{e9}",
        "$a = \"x\" // \" \u{e9}",
        "$r = /a\\/b*/ // \u{e9}",
        "x = /\"/ // \u{e9}",
    ] {
        assert!(is_plain_rule_text(plain), "text {:?}", plain);
    }
    for not_plain in [
        "// \u{e9} */ rule A { condition: true }",
        "/*/ \u{e9}",
        "/* a */ \"\u{e9}\"",
        "a */ // \u{e9}",
        "\"a*/b\" // \u{e9}",
        "\"a\\\" // \u{e9}\"",
        "x \"a // \u{e9}",
        "/a // \u{e9}",
        "include \"a.yar\" // \u{e9}",
        "rule A { condition: true } \u{e9}",
        "// a\0",
        "/* \0 */",
        "include \"other\n.yar\"",
        "include \t\"other",
        "// include \"",
        "rule A { meta: m = \"\\xff\" condition: true }",
    ] {
        assert!(!is_plain_rule_text(not_plain), "text {:?}", not_plain);
    }
}

#[test]
fn rules_with_comments_in_any_language_load_and_scan() {
    let rules = "// R\u{e8}gles d\u{2019}essai \u{2014} \u{65e5}\u{672c}\u{8a9e}\n/*\n * Auteur: Jos\u{e9} \\xff\n */\nrule Upx {\n    strings:\n        // le marqueur \u{ab}UPX!\u{bb}\n        $a = \"UPX!\"\n    condition:\n        $a\n}\n";
    let mut engine = YaraEngine::new();
    assert_eq!(engine.load_rules(rules), Ok(()));
    let found = engine.matches(b"..UPX!..").unwrap();
    assert_eq!(found.len(), 1);
    assert_eq!(found[0].rule, "Upx");
    // a broken rule behind such comments is refused with the compiler's message
    let broken = "// \u{e9}\nrule Upx { condition: undefined_thing }";
    assert!(matches!(engine.load_rules(broken), Err(ScanError::RuleCompilation(_))));
}

#[test]
fn metadata_and_patterns_may_hold_any_character() {
    for plain in [
        "author = \"Jos\u{e9} \\\" \u{65e5}\"",
        "  description\t=\t\"\u{e9}\" // ascii only here",
        "$a = \"\\xff\\xfe \u{e9}\" wide ascii",
        "$ = \"\\x80\"",
        "\t$s_1=\"\u{e9}\\\\\" nocase",
        "rule A { strings: $a = \"\\xff\" condition: $a }",
        "rule A { meta: a = \"\u{e9}\" b = \"\u{e8}\" condition: true }",
        "x $a = \"\\xff\"",
        "$a = /\\xff[\\x80-\\xfe]/ nocase",
        "rule A { condition: \"a\" matches /\\xff/ }",
        "author = \"\u{e9}\" // \u{e9}",
    ] {
        assert!(is_plain_rule_text(plain), "text {:?}", plain);
    }
    for not_plain in [
        "author = \"\\xff\"",
        "author = \"a\" \"\u{e9}\"",
        "author == \"\u{e9}\"",
        "author =\n\"\u{e9}\"",
        "author = \"\u{e9} */\"",
        "$a = \"\\xff */\"",
        "$a = \"a\" base64(\"\u{e9}\")",
        "$a = /\u{e9}/",
        "$a != \"\\xff\"",
        "$a* = \"\\xff\"",
        "condition: \"\u{e9}\"",
        "condition: \"\\xff\"",
        "for \"\\xff\" of them : ( true )",
        "import \"\u{e9}\"",
        "import \"\\xff\"",
        "author = \"a\0\"",
    ] {
        assert!(!is_plain_rule_text(not_plain), "text {:?}", not_plain);
    }
}

#[test]
fn rules_with_metadata_and_patterns_of_any_bytes_load_and_scan() {
    let rules = "rule Bytes {\n  meta:\n    author = \"Jos\u{e9} \u{65e5}\u{672c}\"\n    note = \"tab\\there\"\n  strings:\n    $a = \"\\xff\\xfeMARK\"\n    $b = \"caf\u{e9}\"\n  condition:\n    $a or $b\n}\n";
    let mut engine = YaraEngine::new();
    assert_eq!(engine.load_rules(rules), Ok(()));
    let found = engine.matches(b"..\xff\xfeMARK..").unwrap();
    assert_eq!(found.len(), 1);
    assert_eq!(
        found[0].metadata,
        vec![
            ("author".to_string(), MetadataValue::Text("Jos\u{e9} \u{65e5}\u{672c}".to_string())),
            ("note".to_string(), MetadataValue::Text("tab\there".to_string())),
        ]
    );
    assert_eq!(engine.matches("un caf\u{e9}".as_bytes()).unwrap().len(), 1);
    assert!(engine.matches(b"nothing").unwrap().is_empty());
    // the same strings where they are no metadata and no pattern are refused
    // by the compiler
    let misplaced = "rule Bytes {\n  condition:\n    x = \"\u{e9}\"\n}\n";
    assert!(is_plain_rule_text(misplaced));
    assert!(matches!(engine.load_rules(misplaced), Err(ScanError::RuleCompilation(_))));
    let long = format!("rule Bytes {{\n  condition:\n    x = \"{}\"\n}}\n", "\u{e9}".repeat(400));
    assert!(matches!(engine.load_rules(&long), Err(ScanError::RuleCompilation(_))));
}

fn pieces() -> Vec<String> {
    let long = "\u{e9}\u{65e5}".repeat(150);
    let mut all: Vec<String> = [
        "rule A {", "rule B : tag {", "rule", "private", "global", "meta:", "strings:",
        "condition:", "}", "{", "(", ")", ":", "true", "$a", "$a or $b", "$a*", "#a", "@a[1]",
        "!a", "import", "import \"pe\"", "include", "for", "any", "of", "them", "in", "=", "==",
        "!=", "<=", "and", "or", "not", "matches", "contains", "x", "k", "1KB", "0x1F", "1.5", "..",
        "\\", "\\x", "{ AB", "CD }", "{ AB CD }", "$h = {", "*/", "/*", "/", "//", "*", "\"",
        "\"ascii\"", "\"a//b\"", "\"a/*b\"", "\"a\\\"b\"", "\"\\x41\"", "\"\\", "/re/", "/re/is",
        "/a\\/b/", "/a\"b/", "/a*/", "/\\xff+/", "/[\\x80-\\xff]/s", "/re", "/\\", "base64(",
        "for any of them : (", "for all i in (1..2) : (", "for \"ascii\" of them : ( true )",
        "pe.exports(", "filesize", "wide", "ascii", "nocase", "xor", "\r", "\t",
    ]
    .iter()
    .map(|piece| piece.to_string())
    .collect();
    all.extend([
        format!("x = \"{}\"", long),
        format!("author = \"{} \\\" {}\"", long, long),
        format!("author=\"{}\"", long),
        format!("$a = \"\\xff\\xfe{}\"", long),
        format!("$b = \"{}\" wide", long),
        format!("$ = \"{}\\\\\"", long),
        format!("$c=\"{}", long),
        format!("// {}", long),
        format!("/* {}", long),
        format!("/* {} */", long),
        format!("{} */", long),
        format!("// \"{}", long),
        format!("y = \"{}\\", long),
        format!("= \"{}\"", long),
        format!("= \"\\xff{}\"", long),
        format!("\"{}\"", long),
        format!("\"{}", long),
        format!("{}\"", long),
        format!("import \"{}\"", long),
        format!("for \"{}\" of them : ( true )", long),
        format!("/{}/", long),
        "\"\\xff\\xfe\"".to_string(),
        "import \"\\xff\"".to_string(),
        "for \"\\xff\" of them : ( true )".to_string(),
        "k = \"\\xff\"".to_string(),
    ]);
    all
}

fn draw(state: &mut u64, bound: usize) -> usize {
    *state = state.wrapping_mul(6364136223846793005).wrapping_add(1442695040888963407);
    ((*state >> 33) as usize) % bound
}

fn assemble(state: &mut u64, pieces: &[String], most: usize) -> String {
    let gaps = ["\n", "\n", " ", " ", "", "\t", " \n  "];
    let mut text = String::new();
    for _ in 0..1 + draw(state, most) {
        text.push_str(&pieces[draw(state, pieces.len())]);
        text.push_str(gaps[draw(state, gaps.len())]);
    }
    text
}

#[test]
fn plain_text_of_any_shape_goes_through_the_compiler() {
    let pieces = pieces();
    let mut state: u64 = 12345;
    let mut engine = YaraEngine::new();
    let mut tried = 0;
    for _ in 0..30000 {
        let text = assemble(&mut state, &pieces, 12);
        if is_plain_rule_text(&text) {
            tried += 1;
            if engine.load_rules(&text).is_ok() {
                let _ = engine.matches(b"\xff\xfe UPX! anything");
            }
        }
    }
    assert!(tried > 1000);
}

#[test]
fn plain_rules_of_any_shape_go_through_the_compiler() {
    let pieces = pieces();
    let mut state: u64 = 777;
    let mut engine = YaraEngine::new();
    let (mut tried, mut loaded) = (0, 0);
    for round in 0..20000 {
        let a = assemble(&mut state, &pieces, 3);
        let b = assemble(&mut state, &pieces, 3);
        let c = assemble(&mut state, &pieces, 3);
        let text = match round % 5 {
            0 => format!("rule R {{ meta: {} strings: $a = \"a\" condition: $a }}", a),
            1 => format!("rule R {{ strings: {} condition: any of them }}", a),
            2 => format!("rule R {{ condition: {} }}", a),
            3 => format!("{}\nrule R {{ condition: true }}", a),
            _ => format!(
                "rule R {{\n meta:\n  {}\n strings:\n  {}\n condition:\n  {}\n}}",
                a, b, c
            ),
        };
        if is_plain_rule_text(&text) {
            tried += 1;
            if engine.load_rules(&text).is_ok() {
                loaded += 1;
                let _ = engine.matches(b"\xff\xfe UPX! anything a");
            }
        }
    }
    assert!(tried > 1000, "tried {}", tried);
    assert!(loaded > 20, "loaded {}", loaded);
}

#[test]
fn plain_text_behind_an_include_goes_through_the_compiler() {
    let pieces = pieces();
    let tails = [
        "rule I { condition: true }", "/* open", "rule I { condition: \"open", "import \"open",
        "rule I { strings: $a = \"open", "rule I { meta: a = \"open", "rule I { strings: $a = /open",
        "// line", "rule I { strings: $a = { AB", "for \"open", "x = \"open\\", "",
    ];
    let mut state: u64 = 4242;
    let mut engine = YaraEngine::new();
    let mut tried = 0;
    for round in 0..20000 {
        let before = if round % 3 == 0 { assemble(&mut state, &pieces, 2) } else { String::new() };
        let text = format!(
            "{}include \"i.yar\"{}{}",
            before,
            ["\n", " ", ""][draw(&mut state, 3)],
            assemble(&mut state, &pieces, 8)
        );
        let source = RuleSource {
            text,
            includes: vec![file("i.yar", tails[draw(&mut state, tails.len())])],
        };
        if is_plain_rule_text(&source.text) {
            tried += 1;
            if engine.load_source(&source).is_ok() {
                let _ = engine.matches(b"\xff\xfe UPX! anything");
            }
        }
    }
    assert!(tried > 500);
}

#[test]
fn an_include_is_resolved_for_the_file_that_holds_it() {
    // two files include a file of one name, each its own
    let source = RuleSource {
        text: "include \"a/m.yar\"\ninclude \"x.yar\"\nrule Top { condition: true }".to_string(),
        includes: vec![
            file("a/m.yar", "include \"x.yar\"\nrule M { condition: true }"),
            file_in("a/m.yar", "x.yar", "rule Inner { condition: true }"),
            file("x.yar", "rule Outer { condition: true }"),
        ],
    };
    let mut engine = YaraEngine::new();
    assert_eq!(engine.load_source(&source), Ok(()));
    let names: Vec<String> = engine.matches(b"").unwrap().into_iter().map(|m| m.rule).collect();
    assert_eq!(names, vec!["Inner", "M", "Outer", "Top"]);
    // a file that is offered to another file only is not found
    let source = RuleSource {
        text: "include \"x.yar\"\nrule Top { condition: true }".to_string(),
        includes: vec![file_in("a/m.yar", "x.yar", "rule Inner { condition: true }")],
    };
    assert!(matches!(engine.load_source(&source), Err(ScanError::RuleCompilation(_))));
}

#[test]
fn the_names_of_the_includes_are_listed_in_their_order() {
    let text = "include \"../common/base.yar\"\nimport \"pe\"\ninclude\t \"/etc/rules/all.yar\"\n\
                rule A { condition: true }\ninclude\"glued.yar\"\ninclude \"open";
    assert_eq!(included_names(text), vec!["../common/base.yar", "/etc/rules/all.yar"]);
    assert!(included_names("rule A { condition: true }").is_empty());
    assert_eq!(included_names("include \"\""), vec![""]);
    // the listing errs on the side of more: a comment is not told apart
    assert_eq!(included_names("// include \"old.yar\""), vec!["old.yar"]);
}

#[test]
fn a_candidate_that_fails_to_load_is_passed_over() {
    let scanner = Scanner::new(ScannerConfig::default()).unwrap();
    let sample = ContentSample::from_bytes(EICAR_TEST_STRING.as_bytes().to_vec());
    let broken = text("rule broken {");
    let missing = Some(RuleSource::new("include \"gone.yar\"".to_string()));
    // no candidate loads: the scan goes on without matches
    let sources = vec![None, broken.clone(), missing.clone()];
    assert_eq!(evaluate_signatures(EICAR_TEST_STRING.as_bytes(), &sources), Ok(Vec::new()));
    let outcome = scanner.scan_path("eicar.com", &sample, &sources).unwrap();
    assert!(outcome.signatures.is_empty());
    assert_eq!(outcome.recommended_action, RecommendedAction::Allow);
    // the first that loads is scanned with
    let sources = vec![broken, missing, text(EXAMPLE_RULES)];
    let found = evaluate_signatures(EICAR_TEST_STRING.as_bytes(), &sources).unwrap();
    assert_eq!(found.len(), 1);
    assert_eq!(found[0].rule, "EICAR_Test_File");
}

/// Every text of up to `most` of `tokens`.
fn sequences(tokens: &[&str], most: usize) -> Vec<String> {
    let mut texts = Vec::new();
    for length in 0..most + 1 {
        let mut count = 1;
        for _ in 0..length {
            count *= tokens.len();
        }
        for mut code in 0..count {
            let mut text = String::new();
            for _ in 0..length {
                text.push_str(tokens[code % tokens.len()]);
                code /= tokens.len();
            }
            texts.push(text);
        }
    }
    texts
}

/// Every text of up to four of the tokens that open and close comments,
/// strings and regular expressions, followed by a string that would break
/// the engine if the compiler took it for what it says.
fn texts_before_a_dangerous_string() -> Vec<String> {
    let tokens = ["*/", "/*", "/", "//", "\"", "\\", "\n", " ", "x", "="];
    sequences(&tokens, 4).into_iter().map(|text| format!("{}import \"\\xff\"", text)).collect()
}

/// The same before the name of a file that would break the engine.
fn texts_before_a_dangerous_name() -> Vec<String> {
    let tokens = ["*/", "/*", "/", "//", "\"", "\\", "\n", " ", "x", "="];
    let named = format!("include \"{}\"", "\u{e9}\u{65e5}".repeat(150));
    sequences(&tokens, 4).into_iter().map(|text| format!("{}{}", text, named)).collect()
}

/// Load every plain one among `texts`, and scan with those that load.
fn load_plain(texts: &[String]) -> (usize, usize) {
    let mut engine = YaraEngine::new();
    let (mut plain, mut loaded) = (0, 0);
    for text in texts {
        if is_plain_rule_text(text) {
            plain += 1;
            if engine.load_rules(text).is_ok() {
                loaded += 1;
                let _ = engine.matches(b"anything s");
            }
        }
    }
    (plain, loaded)
}

fn load_behind(tail: &str, texts: &[String]) -> (usize, usize) {
    let mut engine = YaraEngine::new();
    let (mut plain, mut loaded) = (0, 0);
    for text in texts {
        let source = RuleSource {
            text: format!("include \"i.yar\"\n{}\nrule Last {{ condition: true }}", text),
            includes: vec![file("i.yar", tail)],
        };
        if is_plain_rule_text(&source.text) {
            plain += 1;
            if engine.load_source(&source).is_ok() {
                loaded += 1;
                let _ = engine.matches(b"anything");
            }
        }
    }
    (plain, loaded)
}

#[test]
fn a_dangerous_string_is_refused_or_harmless() {
    let texts = texts_before_a_dangerous_string();
    let (plain, _) = load_plain(&texts);
    assert!(plain > 1000, "plain {}", plain);
    assert!(!is_plain_rule_text(&texts[0]));
}

#[test]
fn a_dangerous_name_is_refused_or_harmless() {
    let texts = texts_before_a_dangerous_name();
    let (plain, _) = load_plain(&texts);
    assert!(plain > 1000, "plain {}", plain);
    assert!(!is_plain_rule_text(&texts[0]));
}

#[test]
fn a_dangerous_name_behind_an_open_comment_is_refused_or_harmless() {
    let (plain, _) = load_behind("/* open", &texts_before_a_dangerous_name());
    assert!(plain > 1000, "plain {}", plain);
}

#[test]
fn a_dangerous_string_behind_longer_texts_is_refused_or_harmless() {
    let tokens = ["*/", "/*", "/", "\"", "\\", "\n", "x", "="];
    let texts: Vec<String> = sequences(&tokens, 5)
        .into_iter()
        .map(|text| format!("{}import \"\\xff\"", text))
        .collect();
    let (plain, _) = load_plain(&texts);
    assert!(plain > 1000, "plain {}", plain);
}

#[test]
fn a_dangerous_metadata_string_is_refused_or_harmless() {
    let tokens = ["*/", "/*", "/", "//", "\"", "\\", "\n", " ", "=", "$"];
    let texts: Vec<String> = sequences(&tokens, 4)
        .into_iter()
        .map(|text| format!("rule R {{ meta: a = 1\n{}k = \"\\xff\"\ncondition: true }}", text))
        .collect();
    let (plain, loaded) = load_plain(&texts);
    assert!(plain > 1000, "plain {}", plain);
    assert!(loaded > 0);
}

#[test]
fn a_dangerous_string_in_a_condition_is_refused_or_harmless() {
    let tokens = ["*/", "/*", "/", "//", "\"", "\\", "\n", " ", "$s"];
    let texts: Vec<String> = sequences(&tokens, 4)
        .into_iter()
        .map(|text| {
            format!(
                "rule R {{ strings: $s = \"s\" condition:\n{}for \"\\xff\" of them : ( true ) }}",
                text
            )
        })
        .collect();
    let (plain, _) = load_plain(&texts);
    assert!(plain > 1000, "plain {}", plain);
}

#[test]
fn a_dangerous_string_behind_an_open_comment_is_refused_or_harmless() {
    let (plain, _) = load_behind("/* open", &texts_before_a_dangerous_string());
    assert!(plain > 1000, "plain {}", plain);
}

#[test]
fn a_dangerous_string_behind_an_open_string_is_refused_or_harmless() {
    let texts = texts_before_a_dangerous_string();
    let (plain, _) = load_behind("rule I { condition: true } import \"open", &texts);
    assert!(plain > 1000, "plain {}", plain);
}

#[test]
fn a_dangerous_string_behind_an_open_expression_is_refused_or_harmless() {
    let texts = texts_before_a_dangerous_string();
    let (plain, _) = load_behind("rule I { strings: $a = /open", &texts);
    assert!(plain > 1000, "plain {}", plain);
}

#[test]
fn a_dangerous_string_behind_a_whole_file_is_refused_or_harmless() {
    let (plain, loaded) = load_behind("rule I { condition: true }", &texts_before_a_dangerous_string());
    assert!(plain > 1000, "plain {}", plain);
    assert!(loaded > 0);
}

#[test]
fn short_texts_with_an_escape_of_a_high_byte_are_refused_or_harmless() {
    let tokens = ["\"", "/", "*/", "\\", "=", "x", " ", "\n", "\\xff", "import "];
    let (plain, _) = load_plain(&sequences(&tokens, 4));
    assert!(plain > 1000, "plain {}", plain);
    let tokens = ["\"", "/", "*/", "\\", "\n", "\\xff", "import "];
    let (plain, _) = load_plain(&sequences(&tokens, 5));
    assert!(plain > 1000, "plain {}", plain);
}

#[test]
fn short_texts_with_comments_and_patterns_are_refused_or_harmless() {
    let tokens = ["\"", "/*", "*/", "//", "$a", "=", " ", "\n", "\\xff", "import "];
    let (plain, _) = load_plain(&sequences(&tokens, 4));
    assert!(plain > 1000, "plain {}", plain);
    let tokens = ["\"", "=", "x", "$", " ", "\\xff", "import "];
    let (plain, _) = load_plain(&sequences(&tokens, 5));
    assert!(plain > 1000, "plain {}", plain);
}

#[test]
fn short_texts_with_names_of_other_files_are_refused_or_harmless() {
    let tokens = ["\"", "/", "//", "$a", "x", "=", "\n", "\u{e9}", "import ", "include "];
    let mut engine = YaraEngine::new();
    let mut plain = 0;
    for text in sequences(&tokens, 4) {
        let source = RuleSource { text, includes: vec![file("x", "rule I { condition: true }")] };
        if is_plain_rule_text(&source.text) {
            plain += 1;
            let _ = engine.load_source(&source);
        }
    }
    assert!(plain > 1000, "plain {}", plain);
}

fn load_metadata(tokens: &[&str]) {
    let texts: Vec<String> = sequences(tokens, 4)
        .into_iter()
        .map(|text| format!("rule R {{ meta:\n{}\ncondition: true }}", text))
        .collect();
    let (plain, loaded) = load_plain(&texts);
    assert!(plain > 1000, "plain {}", plain);
    assert!(loaded > 0);
}

#[test]
fn short_metadata_with_an_escape_of_a_high_byte_is_refused_or_harmless() {
    load_metadata(&["\"", "/", "*/", "\\", "=", "k", "\\xff", "$"]);
}

#[test]
fn short_metadata_with_comments_is_refused_or_harmless() {
    load_metadata(&["\"", "/*", "*/", "//", "=", "k", "\\xff", "\n"]);
}

#[test]
fn short_conditions_with_an_escape_of_a_high_byte_are_refused_or_harmless() {
    let tokens = ["\"", "/", "*/", "\\", "=", "$s", " ", "for ", "\\xff", " of them : ( true )"];
    let texts: Vec<String> = sequences(&tokens, 4)
        .into_iter()
        .map(|text| format!("rule R {{ strings: $s = \"s\" condition:\n{}\n}}", text))
        .collect();
    let (plain, _) = load_plain(&texts);
    assert!(plain > 1000, "plain {}", plain);
}

/// Every text of up to four of `tokens`, followed by a long string beyond
/// ASCII, which breaks the engine where the compiler puts it in a message.
fn texts_before_a_long_string(tokens: &[&str], first: &str) -> Vec<String> {
    let long = format!("\"{}{}\"", first, "\u{e9}".repeat(300));
    sequences(tokens, 4).into_iter().map(|text| format!("{}{}", text, long)).collect()
}

#[test]
fn a_long_string_is_refused_or_harmless() {
    let tokens = ["x", "=", " ", "\n", "/", "*/", "\\", "$", "import ", "\""];
    let (plain, _) = load_plain(&texts_before_a_long_string(&tokens, ""));
    assert!(plain > 300, "plain {}", plain);
}

#[test]
fn a_long_string_of_the_other_parity_is_refused_or_harmless() {
    let tokens = ["x", "=", " ", "\n", "/", "*/", "\\", "$", "import ", "\""];
    let (plain, _) = load_plain(&texts_before_a_long_string(&tokens, "a"));
    assert!(plain > 300, "plain {}", plain);
}

#[test]
fn a_long_string_in_a_condition_is_refused_or_harmless() {
    let tokens = ["$s", "=", " ", "\n", "/", "*/", "\\", "x", "\"", "for "];
    let texts: Vec<String> = texts_before_a_long_string(&tokens, "")
        .into_iter()
        .map(|text| format!("rule R {{ strings: $s = \"s\" condition:\n{} of them : ( true ) }}", text))
        .collect();
    let (plain, _) = load_plain(&texts);
    assert!(plain > 300, "plain {}", plain);
}

#[test]
fn a_long_string_behind_an_open_comment_is_refused_or_harmless() {
    let tokens = ["x", "=", " ", "\n", "/", "*/", "/*", "$", "import ", "\""];
    let (plain, _) = load_behind("/* open", &texts_before_a_long_string(&tokens, ""));
    assert!(plain > 300, "plain {}", plain);
}
