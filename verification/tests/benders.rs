use glitchup::benders::apply;
use glitchup::benders::run_combination;
use glitchup::benders::JobAction;
use glitchup::benders::KaBender;
use glitchup::configuration::Configuration;
use glitchup::error::FailureKind;
use glitchup::kind::MutationKind;
use glitchup::mutations::chaos;
use glitchup::mutations::chaos::chaos_with;
use glitchup::mutations::compress;
use glitchup::mutations::gradient;
use glitchup::mutations::increase;
use glitchup::mutations::loops;
use glitchup::mutations::multiply;
use glitchup::mutations::multiply::Factor;
use glitchup::mutations::reverse;
use glitchup::mutations::shift;
use glitchup::mutations::shuffle;
use glitchup::mutations::swap;
use glitchup::mutations::void;

fn configured(extra: &str) -> Configuration {
    let text = format!(
        "inputfile = \"pictures/cat.png\"\niterations = [1]\nchunksize = [100]\n{}",
        extra
    );
    Configuration::from_text(&text).unwrap()
}

fn counted(len: usize) -> Vec<u8> {
    (0..len).map(|k| (k % 251) as u8).collect()
}

fn sorted(data: &[u8]) -> Vec<u8> {
    let mut copy = data.to_vec();
    copy.sort();
    copy
}

fn doubling() -> Factor {
    Factor::new("2".to_string(), (0..256usize).map(|b| ((b as f64 * 2.0) as usize % 256) as u8).collect()).unwrap()
}

#[test]
fn void_end_to_end() {
    let cfg = configured("mutations = [[\"Void\"]]\n");
    let bender = KaBender::new(&cfg, "0".to_string()).unwrap();
    for _ in 0..50 {
        let mut data = vec![b'x'; 10_000];
        let log = bender.run_job(0, &mut data, &Vec::new()).unwrap();
        assert_eq!(log, vec!["VOID_it=1_ch=100".to_string()]);
        let first = data.iter().position(|b| *b == b'0').unwrap();
        assert!(first >= 200);
        let end = (first + 100).min(10_000);
        for (k, b) in data.iter().enumerate() {
            if first <= k && k < end {
                assert_eq!(*b, b'0');
            } else {
                assert_eq!(*b, b'x');
            }
        }
        let name = bender.output_name(&log);
        assert!(name.contains("VOID_it=1_ch=100"));
        assert_eq!(name, "pictures/cat__VOID_it=1_ch=100.png");
    }
}

#[test]
fn a_failing_job_does_not_touch_the_others() {
    let cfg = configured(
        "mutations = [[\"Void\"], [\"Void\", \"Swap\"], [\"Reverse\"], [\"Void\", \"Void\"], [\"Shuffle\"]]\n[SwapConfig]\nchunksize = [5000]\n",
    );
    let bender = KaBender::new(&cfg, "7".to_string()).unwrap();
    let mut actions = Vec::new();
    for index in 0..5 {
        let mut data = counted(10_000);
        let made = bender.run_job(index, &mut data, &Vec::new());
        if index == 1 {
            assert_eq!(made.as_ref().unwrap_err().kind, FailureKind::ChunkTooLarge);
        }
        actions.push(bender.finish(index, &made));
    }
    assert_eq!(actions[1], JobAction::Discard { path: "pictures/temp1SEED=7.png".to_string() });
    for index in [0usize, 2, 3, 4] {
        match &actions[index] {
            JobAction::Finalize { from, to } => {
                assert_eq!(from, &format!("pictures/temp{}SEED=7.png", index));
                assert!(to.starts_with("pictures/cat__"));
                assert!(to.ends_with(".png"));
            }
            other => panic!("{:?}", other),
        }
    }
    assert_eq!(
        actions[3],
        JobAction::Finalize {
            from: "pictures/temp3SEED=7.png".to_string(),
            to: "pictures/cat__VOID_it=1_ch=100---VOID_it=1_ch=100.png".to_string()
        }
    );
}

#[test]
fn file_names_follow_the_output_file() {
    let cfg = configured("outputfile = \"result.v2.jpg\"\nmutations = [[\"Void\"]]\n");
    let bender = KaBender::new(&cfg, "seed".to_string()).unwrap();
    assert_eq!(bender.seed, "seed");
    assert_eq!(bender.temp_name(12), "temp12SEED=seed.jpg");
    assert_eq!(bender.output_name(&vec!["A".to_string(), "B".to_string()]), "result.v2__A---B.jpg");
    assert_eq!(bender.output_name(&Vec::new()), "result.v2__.jpg");
    let cfg = configured("outputfile = \"out/deep/name.png\"\nmutations = [[\"Void\"]]\n");
    let bender = KaBender::new(&cfg, "3".to_string()).unwrap();
    assert_eq!(bender.temp_name(0), "out/deep/temp0SEED=3.png");
    assert_eq!(bender.output_name(&vec!["X".to_string()]), "out/deep/name__X.png");
}

#[test]
fn an_output_file_without_extension_gives_no_bender() {
    for name in ["plain", "dir.d/plain", ".hidden", "dir/.hidden", ""] {
        let cfg = configured(&format!("outputfile = \"{}\"\nmutations = [[\"Void\"]]\n", name));
        assert!(KaBender::new(&cfg, "0".to_string()).is_none(), "{}", name);
    }
    let cfg = configured("outputfile = \"ends.\"\nmutations = [[\"Void\"]]\n");
    let bender = KaBender::new(&cfg, "0".to_string()).unwrap();
    assert_eq!(bender.temp_name(1), "temp1SEED=0.");
}

#[test]
fn a_long_log_is_cut_off() {
    let cfg = configured("mutations = [[\"Void\"]]\n");
    let bender = KaBender::new(&cfg, "0".to_string()).unwrap();
    let log: Vec<String> = (0..30).map(|_| "VOID_it=1_ch=100".to_string()).collect();
    let name = bender.output_name(&log);
    let joined = log.join("---");
    assert!(joined.len() > 200);
    assert!(glitchup::benders::log_is_cut(&log));
    assert!(!glitchup::benders::log_is_cut(&vec!["a".repeat(200)]));
    assert!(glitchup::benders::log_is_cut(&vec!["a".repeat(100), "b".repeat(98)]));
    assert!(!glitchup::benders::log_is_cut(&vec!["a".repeat(100), "b".repeat(97)]));
    assert_eq!(name, format!("pictures/cat__{}.png", &joined[..200]));
    let exact: Vec<String> = vec!["a".repeat(200)];
    assert_eq!(bender.output_name(&exact), format!("pictures/cat__{}.png", "a".repeat(200)));
    let over: Vec<String> = vec!["a".repeat(201)];
    assert_eq!(bender.output_name(&over), format!("pictures/cat__{}.png", "a".repeat(200)));
}

#[test]
fn a_job_beyond_the_combinations_is_refused() {
    let cfg = configured("mutations = [[\"Void\"]]\n");
    let bender = KaBender::new(&cfg, "0".to_string()).unwrap();
    let mut data = counted(1000);
    let made = bender.run_job(1, &mut data, &Vec::new());
    assert_eq!(made.unwrap_err().kind, FailureKind::OutOfBounds);
    assert_eq!(data, counted(1000));
}

#[test]
fn mutations_apply_in_order() {
    let cfg = configured(
        "mutations = [[\"Increase\", \"Void\"]]\n[IncreaseConfig]\niterations = 3\nincrease_by = 1\n[VoidConfig]\nchunksize = 20000\n",
    );
    let mut data = vec![b'x'; 10_000];
    let log = run_combination(&mut data, &cfg.get_mutations()[0], &cfg, &Vec::new()).unwrap();
    assert_eq!(log, vec!["INC_it=3_ch=100_by=1".to_string(), "VOID_it=1_ch=20000".to_string()]);
    assert!(data[..200].iter().all(|b| *b == b'x'));
    let first = data.iter().position(|b| *b == b'0').unwrap();
    assert!(first >= 200);
    assert!(data[first..].iter().all(|b| *b == b'0'));
    assert!(data[..first].iter().all(|b| (b'x'..=b'x' + 3).contains(b)));
}

#[test]
fn a_combination_stops_at_its_first_failure() {
    let cfg = configured("mutations = [[\"Void\", \"Multiply\", \"Void\"]]\n[VoidConfig]\nchunksize = 1\n[MultiplyConfig]\nmultiply_by = 2.0\n");
    let mut data = vec![b'x'; 5000];
    let made = run_combination(&mut data, &cfg.get_mutations()[0], &cfg, &Vec::new());
    assert_eq!(made.unwrap_err().kind, FailureKind::MissingFactor);
    assert_eq!(data.iter().filter(|b| **b == b'0').count(), 1);
    let mut data = vec![b'x'; 5000];
    let factors = vec![None, Some(doubling())];
    let log = run_combination(&mut data, &cfg.get_mutations()[0], &cfg, &factors).unwrap();
    assert_eq!(log.len(), 3);
    assert_eq!(log[1], "MUL_it=1_ch=100_by=2");
}

#[test]
fn a_mutation_without_configuration_is_refused() {
    let cfg = configured("mutations = [[\"Void\"]]\n");
    let mut data = counted(1000);
    assert!(void(&mut data, &cfg).is_ok());
    let mut data = counted(1000);
    assert_eq!(reverse(&mut data, &cfg).unwrap_err().kind, FailureKind::NotConfigured);
    assert_eq!(chaos(&mut data, &cfg).unwrap_err().kind, FailureKind::NotConfigured);
    assert_eq!(loops(&mut data, &cfg).unwrap_err().kind, FailureKind::NotConfigured);
    assert_eq!(shift(&mut data, &cfg).unwrap_err().kind, FailureKind::NotConfigured);
    assert_eq!(shuffle(&mut data, &cfg).unwrap_err().kind, FailureKind::NotConfigured);
    assert_eq!(swap(&mut data, &cfg).unwrap_err().kind, FailureKind::NotConfigured);
    assert_eq!(increase(&mut data, &cfg).unwrap_err().kind, FailureKind::NotConfigured);
    assert_eq!(gradient(&mut data, &cfg).unwrap_err().kind, FailureKind::NotConfigured);
    assert_eq!(compress(&mut data, &cfg).unwrap_err().kind, FailureKind::NotConfigured);
    assert_eq!(multiply(&mut data, &cfg, &doubling()).unwrap_err().kind, FailureKind::NotConfigured);
    assert_eq!(apply(MutationKind::Multiply, &mut data, &cfg, None).unwrap_err().kind, FailureKind::NotConfigured);
    assert_eq!(data, counted(1000));
    let error = reverse(&mut data, &cfg).unwrap_err();
    assert_eq!(error.error, FailureKind::NotConfigured.describe());
}

#[test]
fn an_empty_buffer_is_refused() {
    let cfg = configured(
        "mutations = [[\"Void\", \"Chaos\", \"Loops\", \"Reverse\", \"Shift\", \"Shuffle\", \"Swap\", \"Increase\", \"Gradient\", \"Multiply\", \"Compress\"]]\n[LoopConfig]\nloops = 1\n[IncreaseConfig]\nincrease_by = 1\n[GradientConfig]\naccelerate_by = 1\naccelerate_in = 1\n[MultiplyConfig]\nmultiply_by = [0.5, 2.0]\n[CompressConfig]\ncompress_by = 2\n",
    );
    let factor = doubling();
    for place in 0..11 {
        let mut data: Vec<u8> = Vec::new();
        let kind = MutationKind::from_index(place);
        assert_eq!(apply(kind, &mut data, &cfg, Some(&factor)).unwrap_err().kind, FailureKind::EmptyBuffer);
    }
}

#[test]
fn every_mutation_describes_itself_and_keeps_the_header() {
    let cfg = Configuration::from_text(&format!(
        "inputfile = \"a.png\"\niterations = [20]\nchunksize = [100]\nmutations = [[\"Void\", \"Chaos\", \"Loops\", \"Reverse\", \"Shift\", \"Shuffle\", \"Swap\", \"Increase\", \"Gradient\", \"Multiply\", \"Compress\"]]\n[LoopConfig]\nloops = 3\n[IncreaseConfig]\nincrease_by = 300\n[GradientConfig]\naccelerate_by = 2\naccelerate_in = 10\n[MultiplyConfig]\nmultiply_by = [2.0]\n[CompressConfig]\ncompress_by = 2\n"
    ))
    .unwrap();
    let factor = doubling();
    let expected = [
        "VOID_it=20_ch=100",
        "CHS_it=20_ch=100",
        "LPS_it=20_ch=100_lps=3",
        "RVR_it=20_ch=100",
        "SFT_it=20_ch=100",
        "SHF_it=20_ch=100",
        "SWP_it=20_ch=100",
        "INC_it=20_ch=100_by=300",
        "GRT_it=20_ch=100_by=2_in=10",
        "MUL_it=20_ch=100_by=2",
        "CMP_it=20_ch=100_by=2",
    ];
    for place in 0..11 {
        let kind = MutationKind::from_index(place);
        let mut data = counted(10_000);
        let text = apply(kind, &mut data, &cfg, Some(&factor)).unwrap();
        assert_eq!(text, expected[place]);
        assert_eq!(data.len(), 10_000);
        assert_eq!(&data[..200], &counted(10_000)[..200]);
        if !matches!(kind, MutationKind::Shuffle | MutationKind::Swap | MutationKind::Shift | MutationKind::Reverse) {
            assert_ne!(data, counted(10_000), "{:?}", kind);
        }
    }
}

#[test]
fn rearranging_mutations_keep_the_bytes() {
    let cfg = Configuration::from_text(
        "inputfile = \"a.png\"\niterations = [5, 30]\nchunksize = [1, 400]\nmutations = [[\"Reverse\", \"Shift\", \"Shuffle\", \"Swap\"]]\n",
    )
    .unwrap();
    for _ in 0..20 {
        let mut data = counted(1000);
        assert!(reverse(&mut data, &cfg).is_ok());
        assert_eq!(sorted(&data), sorted(&counted(1000)));
        assert!(shift(&mut data, &cfg).is_ok());
        assert_eq!(sorted(&data), sorted(&counted(1000)));
        assert!(shuffle(&mut data, &cfg).is_ok());
        assert_eq!(sorted(&data), sorted(&counted(1000)));
        assert!(swap(&mut data, &cfg).is_ok());
        assert_eq!(sorted(&data), sorted(&counted(1000)));
        assert_eq!(&data[..20], &counted(1000)[..20]);
    }
}

#[test]
fn swap_refuses_a_chunk_of_half_the_region() {
    let cfg = Configuration::from_text(
        "inputfile = \"a.png\"\niterations = [3]\nchunksize = [480]\nmutations = [[\"Swap\"]]\n",
    )
    .unwrap();
    // region of 980 bytes: the limit is 480
    let mut data = counted(1000);
    let refusal = swap(&mut data, &cfg).unwrap_err();
    assert_eq!(refusal.kind, FailureKind::ChunkTooLarge);
    assert_eq!(
        refusal.error,
        "Cannot perform the mutation - Chunksize is too large. [at = 20, chunksize = 480, length = 1000]"
    );
    assert_eq!(data, counted(1000));
    let cfg = Configuration::from_text(
        "inputfile = \"a.png\"\niterations = [3]\nchunksize = [479]\nmutations = [[\"Swap\"]]\n",
    )
    .unwrap();
    for _ in 0..50 {
        assert_eq!(swap(&mut data, &cfg).unwrap(), "SWP_it=3_ch=479");
    }
}

#[test]
fn shift_refuses_a_chunk_as_large_as_the_region() {
    let cfg = Configuration::from_text(
        "inputfile = \"a.png\"\niterations = [3]\nchunksize = [98]\nmutations = [[\"Shift\"]]\n",
    )
    .unwrap();
    let mut data = counted(100);
    assert_eq!(shift(&mut data, &cfg).unwrap_err().kind, FailureKind::ChunkTooLarge);
    let mut data = counted(101);
    for _ in 0..50 {
        assert_eq!(shift(&mut data, &cfg).unwrap(), "SFT_it=3_ch=98");
    }
}

#[test]
fn loops_are_clamped_to_the_region() {
    let cfg = Configuration::from_text(
        "inputfile = \"a.png\"\niterations = [2]\nchunksize = [300]\nmutations = [[\"Loops\"]]\n[LoopConfig]\nloops = [50]\n",
    )
    .unwrap();
    let mut data = counted(1000);
    // region of 980 bytes holds three chunks of 300
    assert_eq!(loops(&mut data, &cfg).unwrap(), "LPS_it=2_ch=300_lps=3");
    assert_eq!(&data[..20], &counted(1000)[..20]);
    let zero = Configuration::from_text(
        "inputfile = \"a.png\"\niterations = [2]\nchunksize = [0]\nmutations = [[\"Loops\"]]\n[LoopConfig]\nloops = [50]\n",
    )
    .unwrap();
    assert_eq!(loops(&mut data, &zero).unwrap_err().kind, FailureKind::EmptyChunk);
}

#[test]
fn chaos_fills_windows_with_noise() {
    let cfg = Configuration::from_text(
        "inputfile = \"a.png\"\niterations = [1]\nchunksize = [5000]\nmutations = [[\"Chaos\"]]\n",
    )
    .unwrap();
    let mut data = vec![0u8; 100_000];
    assert_eq!(chaos(&mut data, &cfg).unwrap(), "CHS_it=1_ch=5000");
    assert!(data[..2000].iter().all(|b| *b == 0));
    let touched = data.iter().filter(|b| **b != 0).count();
    assert!(touched > 100 && touched <= 5000);
}

#[test]
fn compress_describes_its_distance() {
    let cfg = Configuration::from_text(
        "inputfile = \"a.png\"\niterations = [1]\nchunksize = [100]\nmutations = [[\"Compress\"]]\n[CompressConfig]\ncompress_by = [7]\n",
    )
    .unwrap();
    let mut data = counted(10_000);
    assert_eq!(compress(&mut data, &cfg).unwrap(), "CMP_it=1_ch=100_by=7");
    let ranged = Configuration::from_text(
        "inputfile = \"a.png\"\niterations = [3]\nchunksize = [50]\nmutations = [[\"Compress\"]]\n[CompressConfig]\ncompress_by = [12, 13]\n",
    )
    .unwrap();
    for _ in 0..30 {
        let text = compress(&mut data, &ranged).unwrap();
        assert!(text == "CMP_it=3_ch=50_by=12" || text == "CMP_it=3_ch=50_by=13", "{}", text);
    }
}

fn seeded(seed: u8) -> rand_xorshift::XorShiftRng {
    rand_core::SeedableRng::from_seed([seed; 16])
}

#[test]
fn chaos_without_a_generator_changes_nothing() {
    let mut data = counted(10_000);
    let refusal = chaos_with(&mut data, 3, 100, Err("no entropy".to_string())).unwrap_err();
    assert_eq!(refusal.kind, FailureKind::NoiseUnavailable);
    assert_eq!(refusal.error, "no entropy");
    assert_eq!(data, counted(10_000));
}

#[test]
fn chaos_with_a_generator_fills_its_windows() {
    let mut data = vec![0u8; 100_000];
    assert_eq!(chaos_with(&mut data, 2, 3000, Ok(seeded(7))).unwrap(), "CHS_it=2_ch=3000");
    assert!(data[..2000].iter().all(|b| *b == 0));
    let touched = data.iter().filter(|b| **b != 0).count();
    assert!(touched > 100 && touched <= 6000);
    let mut untouched = vec![0u8; 1000];
    assert_eq!(chaos_with(&mut untouched, 0, 3000, Ok(seeded(7))).unwrap(), "CHS_it=0_ch=3000");
    assert_eq!(untouched, vec![0u8; 1000]);
    assert_eq!(chaos_with(&mut untouched, 5, 0, Ok(seeded(7))).unwrap(), "CHS_it=5_ch=0");
    assert_eq!(untouched, vec![0u8; 1000]);
}

#[test]
fn chaos_refuses_an_empty_buffer_before_it_looks_at_the_generator() {
    let mut data: Vec<u8> = Vec::new();
    assert_eq!(chaos_with(&mut data, 1, 1, Ok(seeded(1))).unwrap_err().kind, FailureKind::EmptyBuffer);
    assert_eq!(
        chaos_with(&mut data, 1, 1, Err("none".to_string())).unwrap_err().kind,
        FailureKind::EmptyBuffer
    );
}

#[test]
fn temporary_names_tell_jobs_and_runs_apart() {
    let cfg = configured("mutations = [[\"Void\"]]\n");
    let first = KaBender::new(&cfg, "1".to_string()).unwrap();
    let eleventh = KaBender::new(&cfg, "11".to_string()).unwrap();
    let mut names = Vec::new();
    for index in [0usize, 1, 2, 10, 11, 12, 100, 101, 111] {
        names.push(first.temp_name(index));
        names.push(eleventh.temp_name(index));
    }
    for (a, one) in names.iter().enumerate() {
        for (b, other) in names.iter().enumerate() {
            assert_eq!(a == b, one == other, "{} {}", one, other);
        }
    }
    assert_eq!(first.temp_name(11), "pictures/temp11SEED=1.png");
    assert_eq!(eleventh.temp_name(1), "pictures/temp1SEED=11.png");
}
