use llmfit_share::hardware::{
    hardware_slug, nearest_mem_tier, os_name, slug_from_lowercase, Binary64, Memory, SystemSpecs,
};
use llmfit_share::submission::{
    branch_name, build_submission, short_hash, short_hash_at, submission_at, submission_path,
    BenchResult, BenchSummary, Figure,
};

fn bits(v: f64) -> Binary64 {
    Binary64 { bits: v.to_bits() }
}

fn memory(v: f64) -> Memory {
    Memory { exact: bits(v), published: bits((v * 100.0).round() / 100.0) }
}

fn figure(v: f64) -> Figure {
    Figure { published: bits((v * 100.0).round() / 100.0), shown: format!("{v:.1}") }
}

fn specs_with_gpu(name: &str) -> SystemSpecs {
    SystemSpecs {
        total_ram_gb: memory(32.0),
        total_cpu_cores: 8,
        cpu_name: "Test CPU".to_string(),
        has_gpu: true,
        total_gpu_vram_gb: Some(memory(24.0)),
        gpu_name: Some(name.to_string()),
        gpu_count: 1,
        unified_memory: false,
    }
}

fn specs_without_gpu(cpu: &str) -> SystemSpecs {
    SystemSpecs {
        total_ram_gb: memory(63.7),
        total_cpu_cores: 16,
        cpu_name: cpu.to_string(),
        has_gpu: false,
        total_gpu_vram_gb: None,
        gpu_name: None,
        gpu_count: 0,
        unified_memory: false,
    }
}

fn tier(gb: f64) -> u32 {
    nearest_mem_tier(bits(gb))
}

#[test]
fn mem_tier_rounds_to_nearest() {
    assert_eq!(tier(23.9), 24);
    assert_eq!(tier(31.0), 32);
    assert_eq!(tier(7.5), 8);
}

#[test]
fn mem_tier_goes_by_the_nearest_tier_everywhere() {
    let tiers: Vec<u32> = vec![8, 12, 16, 24, 32, 48, 64, 80, 96, 128, 192, 256];
    let mut quarter = 0u32;
    while quarter < 1400 {
        let gb = quarter as f64 / 4.0;
        let mut best = 0u32;
        let mut best_d = f64::MAX;
        for &t in &tiers {
            let d = (gb - t as f64).abs();
            if d < best_d {
                best_d = d;
                best = t;
            }
        }
        assert_eq!(tier(gb), best, "{gb}");
        quarter += 1;
    }
}

#[test]
fn mem_tier_grows_with_memory() {
    let sizes = [-1.0, 0.0, 7.9, 10.0, 10.1, 20.0, 23.9, 100.0, 160.0, 161.0, 1e300];
    for pair in sizes.windows(2) {
        assert!(tier(pair[0]) <= tier(pair[1]));
    }
}

#[test]
fn mem_tier_half_way_takes_the_lower_one() {
    assert_eq!(tier(10.0), 8);
    assert_eq!(tier(10.0f64.next_up()), 12);
    assert_eq!(tier(224.0), 192);
    assert_eq!(tier(224.0f64.next_up()), 256);
}

#[test]
fn mem_tier_at_the_ends() {
    assert_eq!(tier(0.0), 8);
    assert_eq!(tier(-0.0), 8);
    assert_eq!(tier(-5.0), 8);
    assert_eq!(tier(f64::MIN_POSITIVE), 8);
    assert_eq!(tier(5e-324), 8);
    assert_eq!(tier(1000.0), 256);
    assert_eq!(tier(1e15), 256);
    assert_eq!(tier(f64::MAX), 256);
    assert_eq!(tier(f64::MIN), 8);
}

#[test]
fn mem_tier_needs_a_finite_size() {
    assert_eq!(tier(f64::NAN), 0);
    assert_eq!(tier(f64::INFINITY), 0);
    assert_eq!(tier(f64::NEG_INFINITY), 0);
}

#[test]
fn slug_is_filename_safe() {
    let specs = specs_with_gpu("NVIDIA RTX 4090!!");
    let slug = hardware_slug(&specs);
    assert!(slug.chars().all(|c| c.is_ascii_alphanumeric() || c == '-'));
    assert!(!slug.contains("--"));
    assert!(!slug.starts_with('-') && !slug.ends_with('-'));
    assert_eq!(slug, "nvidia-rtx-4090");
}

#[test]
fn slug_falls_back_to_the_processor() {
    assert_eq!(hardware_slug(&specs_without_gpu("AMD Ryzen 9 7950X")), "cpu-amd-ryzen-9-7950x");
    assert_eq!(hardware_slug(&specs_without_gpu("")), "cpu");
}

#[test]
fn slug_of_nothing_is_unknown() {
    assert_eq!(hardware_slug(&specs_with_gpu("")), "unknown");
    assert_eq!(hardware_slug(&specs_with_gpu("  --??-- ")), "unknown");
    assert_eq!(hardware_slug(&specs_with_gpu("\u{663e}\u{5361}")), "unknown");
}

#[test]
fn slug_collapses_whatever_is_in_between() {
    assert_eq!(hardware_slug(&specs_with_gpu("(TM) A--B__ C.")), "tm-a-b-c");
    assert_eq!(hardware_slug(&specs_with_gpu("Radeon\u{2122} RX\u{a0}7900")), "radeon-rx-7900");
    // The Kelvin sign is a letter k in lower case.
    assert_eq!(hardware_slug(&specs_with_gpu("\u{212a}2")), "k2");
}

#[test]
fn slug_of_a_slug_is_itself() {
    for name in ["nvidia-rtx-4090", "unknown", "a", "cpu-0-1-2"] {
        assert_eq!(slug_from_lowercase(name), name);
    }
    assert_eq!(slug_from_lowercase("A b"), "A-b");
}

#[test]
fn hardware_slug_of_a_slug_is_itself() {
    for name in ["NVIDIA RTX 4090", "Apple M3 Max", "unknown", "a-1"] {
        let slug = hardware_slug(&specs_with_gpu(name));
        assert_eq!(hardware_slug(&specs_with_gpu(&slug)), slug);
    }
}

#[test]
fn slug_is_in_lower_case() {
    assert_eq!(hardware_slug(&specs_with_gpu("GeForce RTX 3080 Ti")), "geforce-rtx-3080-ti");
    for c in '\0'..=char::MAX {
        let slug = hardware_slug(&specs_with_gpu(&format!("{c}")));
        assert!(!slug.chars().any(|d| d.is_ascii_uppercase()), "{c:?}");
    }
}

#[test]
fn short_hash_is_hex() {
    let h = short_hash("{\"a\":1}");
    assert_eq!(h.len(), 8);
    assert!(h.chars().all(|c| c.is_ascii_hexdigit()));
}

fn reference_hash(s: &str, now: u64) -> String {
    let mut h: u64 = 0xcbf29ce484222325;
    for b in s.as_bytes() {
        h ^= *b as u64;
        h = h.wrapping_mul(0x100000001b3);
    }
    h ^= now;
    h = h.wrapping_mul(0x100000001b3);
    format!("{:08x}", (h & 0xffff_ffff) as u32)
}

#[test]
fn short_hash_mixes_bytes_and_time() {
    assert_eq!(short_hash_at("", 0), "8601b7df");
    for s in ["", "a", "{\"a\":1}", "\u{e4}\u{1f600}"] {
        for now in [0, 1, 1752127200, u64::MAX] {
            assert_eq!(short_hash_at(s, now), reference_hash(s, now));
        }
    }
}

#[test]
fn short_hash_differs_between_seconds() {
    let mut now = 1752127200u64;
    while now < 1752127300 {
        assert_ne!(short_hash_at("{}", now), short_hash_at("{}", now + 1));
        now += 1;
    }
    assert_eq!(short_hash_at("{}", 5), short_hash_at("{}", 5 + (1 << 32)));
}

#[test]
fn short_hash_shows_a_single_byte() {
    let text = "{\"averageTps\": 128.4}";
    for i in 0..text.len() {
        for byte in 0..128u8 {
            let mut bytes = text.as_bytes().to_vec();
            if bytes[i] != byte {
                bytes[i] = byte;
                let other = String::from_utf8(bytes).unwrap();
                assert_ne!(short_hash_at(text, 1752127200), short_hash_at(&other, 1752127200));
            }
        }
    }
}

#[test]
fn short_hash_goes_by_the_clock() {
    let before = std::time::SystemTime::now()
        .duration_since(std::time::UNIX_EPOCH)
        .unwrap()
        .as_secs();
    let h = short_hash("payload");
    let after = std::time::SystemTime::now()
        .duration_since(std::time::UNIX_EPOCH)
        .unwrap()
        .as_secs();
    assert!((before..=after).any(|now| h == reference_hash("payload", now)));
}

#[test]
fn branch_and_path_carry_slug_and_hash() {
    assert_eq!(branch_name("nvidia-rtx-4090", "0123abcd"), "bench/nvidia-rtx-4090-0123abcd");
    assert_eq!(
        submission_path("nvidia-rtx-4090", 1752127200, "0123abcd"),
        "llmfit-core/data/community/nvidia-rtx-4090/1752127200-0123abcd.json"
    );
    assert_eq!(submission_path("a", 0, "b"), "llmfit-core/data/community/a/0-b.json");
}

#[test]
fn names_do_not_collide() {
    let mut seen: Vec<String> = Vec::new();
    for slug in ["a", "a-1", "b"] {
        for now in [1, 10, 11, u64::MAX] {
            for hash in ["00000000", "00000001"] {
                seen.push(submission_path(slug, now, hash));
            }
        }
        for hash in ["00000000", "00000001"] {
            seen.push(branch_name(slug, hash));
        }
    }
    let total = seen.len();
    seen.sort();
    seen.dedup();
    assert_eq!(seen.len(), total);
}

#[test]
fn os_names() {
    assert_eq!(os_name("macos"), "macos");
    assert_eq!(os_name("windows"), "windows");
    assert_eq!(os_name("linux"), "linux");
    assert_eq!(os_name("freebsd"), "linux");
}

fn two_results() -> Vec<BenchResult> {
    vec![
        BenchResult {
            model: "llama3.1:8b".to_string(),
            provider: "ollama".to_string(),
            summary: BenchSummary {
                num_runs: 3,
                avg_ttft_ms: Some(figure(41.234)),
                avg_tps: figure(128.44),
                min_tps: figure(121.0),
                max_tps: figure(133.7),
                avg_total_ms: figure(812.5),
                avg_output_tokens: figure(104.0),
            },
        },
        BenchResult {
            model: "qwen2.5-7b-q4_k_m".to_string(),
            provider: "llamacpp".to_string(),
            summary: BenchSummary {
                num_runs: 3,
                avg_ttft_ms: None,
                avg_tps: figure(42.5),
                min_tps: figure(40.0),
                max_tps: figure(45.0),
                avg_total_ms: figure(2400.0),
                avg_output_tokens: figure(100.0),
            },
        },
    ]
}

#[test]
fn submission_describes_results_and_machine() {
    let specs = specs_with_gpu("NVIDIA GeForce RTX 4090");
    let s = submission_at(&two_results(), &specs, "linux", 1752127200);
    assert_eq!(s.schema_version, 1);
    assert_eq!(s.submitted_at_unix, 1752127200);
    assert_eq!(s.tool.name, "llmfit");
    assert_eq!(s.tool.version, "1.0.0");
    assert_eq!(s.hardware.hw_class, "DISCRETE_GPU");
    assert_eq!(s.hardware.hardware_name, Some("NVIDIA GeForce RTX 4090".to_string()));
    assert_eq!(s.hardware.mem_tier_gb, Some(24));
    assert_eq!(s.hardware.vram_gb, Some(bits(24.0)));
    assert_eq!(s.hardware.gpu_count, 1);
    assert!(!s.hardware.unified_memory);
    assert_eq!(s.hardware.cpu, "Test CPU");
    assert_eq!(s.hardware.cpu_cores, 8);
    assert_eq!(s.hardware.ram_gb, bits(32.0));
    assert_eq!(s.hardware.os, "linux");
    assert_eq!(s.results.len(), 2);
    assert_eq!(s.results[0].model, "llama3.1:8b");
    assert_eq!(s.results[0].provider, "ollama");
    assert_eq!(s.results[0].num_runs, 3);
    assert_eq!(s.results[0].avg_tps, bits(128.44));
    assert_eq!(s.results[0].min_tps, bits(121.0));
    assert_eq!(s.results[0].max_tps, bits(133.7));
    assert_eq!(s.results[0].avg_ttft_ms, Some(bits(41.23)));
    assert_eq!(s.results[0].avg_total_ms, bits(812.5));
    assert_eq!(s.results[0].avg_output_tokens, bits(104.0));
    assert_eq!(s.results[1].model, "qwen2.5-7b-q4_k_m");
    assert_eq!(s.results[1].provider, "llamacpp");
    assert_eq!(s.results[1].avg_ttft_ms, None);
}

#[test]
fn submission_class_and_tier_follow_the_memory() {
    let cpu = submission_at(&two_results(), &specs_without_gpu("x"), "windows", 0);
    assert_eq!(cpu.hardware.hw_class, "CPU_ONLY");
    assert_eq!(cpu.hardware.mem_tier_gb, None);
    assert_eq!(cpu.hardware.vram_gb, None);
    assert_eq!(cpu.hardware.hardware_name, None);
    assert_eq!(cpu.hardware.os, "windows");

    let mut unified = specs_without_gpu("M3");
    unified.unified_memory = true;
    unified.has_gpu = true;
    let s = submission_at(&two_results(), &unified, "macos", 0);
    assert_eq!(s.hardware.hw_class, "UNIFIED");
    assert_eq!(s.hardware.mem_tier_gb, Some(64));

    let mut odd = specs_with_gpu("x");
    odd.total_gpu_vram_gb = Some(memory(f64::NAN));
    assert_eq!(submission_at(&two_results(), &odd, "linux", 0).hardware.mem_tier_gb, None);
}

#[test]
fn submission_is_stamped_by_the_clock() {
    let s = build_submission(&two_results(), &specs_with_gpu("x"), "linux");
    assert!(s.submitted_at_unix > 1_700_000_000);
    assert_eq!(s.results.len(), 2);
}
