use glitchup::configuration::is_asked_for;
use glitchup::configuration::range_from;
use glitchup::configuration::resolve_kind;
use glitchup::configuration::Configuration;
use glitchup::configuration::Extras;
use glitchup::error::ConfigError;
use glitchup::kind::MutationKind;
use glitchup::kind::OptionName;
use glitchup::options::MutOptionVal;
use glitchup::options::RawBlock;
use glitchup::options::RawOptions;
use glitchup::range::Range;

const BASE: &str = "inputfile = \"in/picture.png\"\niterations = [1, 4]\nchunksize = [100]\n";

fn bounds(range: Range) -> (usize, usize) {
    (range.lo(), range.hi())
}

fn numbers(values: &[i64]) -> MutOptionVal {
    MutOptionVal::OArray(values.iter().map(|v| MutOptionVal::OInt(*v)).collect())
}

fn names(rows: &[&[&str]]) -> MutOptionVal {
    MutOptionVal::OArray(
        rows.iter()
            .map(|row| MutOptionVal::OArray(row.iter().map(|n| MutOptionVal::OString(n.to_string())).collect()))
            .collect(),
    )
}

fn raw_with(mutations: &[&[&str]]) -> RawOptions {
    let mut raw = RawOptions::empty();
    raw.inputfile = Some(MutOptionVal::OString("a.png".to_string()));
    raw.iterations = Some(numbers(&[1, 4]));
    raw.chunksize = Some(MutOptionVal::OInt(100));
    raw.mutations = Some(names(mutations));
    for _ in 0..11 {
        raw.blocks.push(RawBlock::empty());
    }
    raw
}

#[test]
fn every_kind_has_its_name() {
    let all = [
        ("Void", MutationKind::Void),
        ("Chaos", MutationKind::Chaos),
        ("Loops", MutationKind::Loops),
        ("Reverse", MutationKind::Reverse),
        ("Shift", MutationKind::Shift),
        ("Shuffle", MutationKind::Shuffle),
        ("Swap", MutationKind::Swap),
        ("Increase", MutationKind::Increase),
        ("Gradient", MutationKind::Gradient),
        ("Multiply", MutationKind::Multiply),
        ("Compress", MutationKind::Compress),
    ];
    for (place, (name, kind)) in all.iter().enumerate() {
        assert_eq!(MutationKind::from_name(name), Some(*kind));
        assert_eq!(kind.as_str(), *name);
        assert_eq!(kind.index(), place);
        assert_eq!(MutationKind::from_index(place), *kind);
    }
    assert_eq!(MutationKind::from_name("void"), None);
    assert_eq!(MutationKind::from_name("Rainbow"), None);
    assert_eq!(MutationKind::from_name(""), None);
    assert_eq!(MutationKind::Loops.block_name(), "LoopConfig");
    assert_eq!(MutationKind::Void.block_name(), "VoidConfig");
    assert_eq!(MutationKind::Void.tag_text(), "VOID");
    assert_eq!(OptionName::AccelerateIn.as_str(), "accelerate_in");
}

#[test]
fn a_plain_configuration_resolves() {
    let text = format!("{}mutations = [[\"Void\"], [\"Reverse\", \"Void\"]]\n", BASE);
    let cfg = Configuration::from_text(&text).unwrap();
    assert_eq!(cfg.get_inputfile(), "in/picture.png");
    assert_eq!(cfg.get_outputfile(), "in/picture.png");
    assert_eq!(cfg.get_times(), 1);
    assert_eq!(
        cfg.get_mutations(),
        &vec![vec![MutationKind::Void], vec![MutationKind::Reverse, MutationKind::Void]]
    );
    let void = cfg.spec(MutationKind::Void).unwrap();
    assert_eq!(void.kind, MutationKind::Void);
    assert_eq!(bounds(void.iterations), (1, 5));
    assert_eq!(bounds(void.chunksize), (100, 101));
    assert_eq!(void.extras, Extras::Plain);
    assert!(cfg.spec(MutationKind::Reverse).is_some());
}

#[test]
fn kinds_that_are_not_asked_for_are_left_out() {
    let text = format!(
        "{}mutations = [[\"Void\"]]\n[LoopConfig]\nloops = [\"no number\"]\n[SwapConfig]\nchunksize = [1, 2, 3]\n",
        BASE
    );
    let cfg = Configuration::from_text(&text).unwrap();
    for place in 0..11 {
        let kind = MutationKind::from_index(place);
        assert_eq!(cfg.spec(kind).is_some(), kind == MutationKind::Void);
    }
}

#[test]
fn a_block_overrides_the_run() {
    let text = format!(
        "{}outputfile = \"out/result.jpg\"\ntimes = 3\nmutations = [[\"Swap\", \"Void\"]]\n[SwapConfig]\niterations = 7\nchunksize = [9, 2]\n",
        BASE
    );
    let cfg = Configuration::from_text(&text).unwrap();
    assert_eq!(cfg.get_outputfile(), "out/result.jpg");
    assert_eq!(cfg.get_times(), 3);
    let swap = cfg.spec(MutationKind::Swap).unwrap();
    assert_eq!(bounds(swap.iterations), (7, 8));
    assert_eq!(bounds(swap.chunksize), (2, 10));
    let void = cfg.spec(MutationKind::Void).unwrap();
    assert_eq!(bounds(void.iterations), (1, 5));
    assert_eq!(bounds(void.chunksize), (100, 101));
}

#[test]
fn parameters_of_a_kind_are_resolved() {
    let text = format!(
        "{}mutations = [[\"Loops\", \"Increase\", \"Gradient\", \"Compress\"]]\n[LoopConfig]\nloops = [2, 6]\n[IncreaseConfig]\nincrease_by = 5\n[GradientConfig]\naccelerate_by = [1, 3]\naccelerate_in = [4]\n[CompressConfig]\ncompress_by = [3, 2]\nchunksize = 50\n",
        BASE
    );
    let cfg = Configuration::from_text(&text).unwrap();
    match cfg.spec(MutationKind::Loops).unwrap().extras {
        Extras::Loops { loops } => assert_eq!(bounds(loops), (2, 7)),
        other => panic!("{:?}", other),
    }
    match cfg.spec(MutationKind::Increase).unwrap().extras {
        Extras::Increase { increase_by } => assert_eq!(bounds(increase_by), (5, 6)),
        other => panic!("{:?}", other),
    }
    match cfg.spec(MutationKind::Gradient).unwrap().extras {
        Extras::Gradient { accelerate_by, accelerate_in } => {
            assert_eq!(bounds(accelerate_by), (1, 4));
            assert_eq!(bounds(accelerate_in), (4, 5));
        }
        other => panic!("{:?}", other),
    }
    let compress = cfg.spec(MutationKind::Compress).unwrap();
    assert_eq!(bounds(compress.chunksize), (50, 51));
    match compress.extras {
        Extras::Compress { compress_by } => assert_eq!(bounds(compress_by), (2, 4)),
        other => panic!("{:?}", other),
    }
}

#[test]
fn loops_without_its_block_lacks_its_parameter() {
    let text = format!("{}mutations = [[\"Loops\"]]\n", BASE);
    assert_eq!(
        Configuration::from_text(&text).err(),
        Some(ConfigError::MissingRequiredParameter {
            kind: MutationKind::Loops,
            parameter: OptionName::Loops
        })
    );
}

#[test]
fn a_parameter_of_a_kind_is_not_taken_from_the_run() {
    let text = format!("loops = [1, 2]\n{}mutations = [[\"Loops\"]]\n[LoopConfig]\niterations = 2\n", BASE);
    assert_eq!(
        Configuration::from_text(&text).err(),
        Some(ConfigError::MissingRequiredParameter {
            kind: MutationKind::Loops,
            parameter: OptionName::Loops
        })
    );
}

#[test]
fn gradient_needs_both_parameters() {
    let text = format!("{}mutations = [[\"Gradient\"]]\n[GradientConfig]\naccelerate_by = 2\n", BASE);
    assert_eq!(
        Configuration::from_text(&text).err(),
        Some(ConfigError::MissingRequiredParameter {
            kind: MutationKind::Gradient,
            parameter: OptionName::AccelerateIn
        })
    );
}

#[test]
fn an_unknown_mutation_is_named() {
    let text = format!("{}mutations = [[\"Void\", \"Rainbow\"], [\"Nothing\"]]\n", BASE);
    assert_eq!(
        Configuration::from_text(&text).err(),
        Some(ConfigError::UnknownMutation { name: "Rainbow".to_string() })
    );
}

#[test]
fn unknown_names_come_before_missing_ranges() {
    let text = "inputfile = \"a.png\"\nmutations = [[\"Bogus\"]]\n";
    assert_eq!(
        Configuration::from_text(text).err(),
        Some(ConfigError::UnknownMutation { name: "Bogus".to_string() })
    );
}

#[test]
fn the_run_needs_its_options() {
    assert_eq!(
        Configuration::from_text("inputfile = \"a.png\"\niterations = 1\nchunksize = 1\n").err(),
        Some(ConfigError::MissingGlobalOption { option: OptionName::Mutations })
    );
    assert_eq!(
        Configuration::from_text("inputfile = \"a.png\"\nchunksize = 1\nmutations = [[\"Void\"]]\n").err(),
        Some(ConfigError::MissingGlobalOption { option: OptionName::Iterations })
    );
    assert_eq!(
        Configuration::from_text("inputfile = \"a.png\"\niterations = 1\nmutations = [[\"Void\"]]\n").err(),
        Some(ConfigError::MissingGlobalOption { option: OptionName::Chunksize })
    );
    assert_eq!(
        Configuration::from_text("iterations = 1\nchunksize = 1\nmutations = [[\"Void\"]]\n").err(),
        Some(ConfigError::MissingGlobalOption { option: OptionName::Inputfile })
    );
    assert_eq!(
        Configuration::from_text("inputfile = \"a\"\niterations = 1\nchunksize = 1\nmutations = \"Void\"\n").err(),
        Some(ConfigError::MissingGlobalOption { option: OptionName::Mutations })
    );
}

#[test]
fn ranges_of_a_wrong_shape_are_refused() {
    let three = "inputfile = \"a.png\"\niterations = [1, 2, 3]\nchunksize = 1\nmutations = [[\"Void\"]]\n";
    assert_eq!(Configuration::from_text(three).err(), Some(ConfigError::InvalidRangeShape));
    let none = "inputfile = \"a.png\"\niterations = []\nchunksize = 1\nmutations = [[\"Void\"]]\n";
    assert_eq!(Configuration::from_text(none).err(), Some(ConfigError::InvalidRangeShape));
    let text = "inputfile = \"a.png\"\niterations = \"many\"\nchunksize = 1\nmutations = [[\"Void\"]]\n";
    assert_eq!(Configuration::from_text(text).err(), Some(ConfigError::InvalidRangeShape));
    let fraction = "inputfile = \"a.png\"\niterations = 1\nchunksize = 1.5\nmutations = [[\"Void\"]]\n";
    assert_eq!(Configuration::from_text(fraction).err(), Some(ConfigError::InvalidRangeShape));
    let negative = "inputfile = \"a.png\"\niterations = 1\nchunksize = [-4, 2]\nmutations = [[\"Void\"]]\n";
    assert_eq!(Configuration::from_text(negative).err(), Some(ConfigError::ValueOutOfRange));
    let block = format!("{}mutations = [[\"Shift\"]]\n[ShiftConfig]\nchunksize = [1, 2, 3]\n", BASE);
    assert_eq!(Configuration::from_text(&block).err(), Some(ConfigError::InvalidRangeShape));
}

#[test]
fn text_that_is_no_toml_is_refused() {
    assert_eq!(Configuration::from_text("this is = = no toml").err(), Some(ConfigError::Unparsable));
    assert_eq!(Configuration::from_text("[open").err(), Some(ConfigError::Unparsable));
}

#[test]
fn times_below_one_mean_no_run() {
    let text = format!("{}times = -2\nmutations = [[\"Void\"]]\n", BASE);
    assert_eq!(Configuration::from_text(&text).unwrap().get_times(), 0);
    let text = format!("{}times = \"often\"\nmutations = [[\"Void\"]]\n", BASE);
    assert_eq!(Configuration::from_text(&text).unwrap().get_times(), 1);
}

#[test]
fn names_are_checked_in_reading_order() {
    let good = vec![vec!["Void".to_string(), "Swap".to_string()], vec![], vec!["Chaos".to_string()]];
    assert_eq!(
        Configuration::verify_config(&good),
        Ok(vec![vec![MutationKind::Void, MutationKind::Swap], vec![], vec![MutationKind::Chaos]])
    );
    let bad = vec![vec!["Void".to_string()], vec!["Swap".to_string(), "swap".to_string(), "x".to_string()]];
    assert_eq!(
        Configuration::verify_config(&bad),
        Err(ConfigError::UnknownMutation { name: "swap".to_string() })
    );
    assert_eq!(Configuration::verify_config(&Vec::new()), Ok(Vec::new()));
}

#[test]
fn options_resolve_without_a_tree() {
    let mut raw = raw_with(&[&["Loops", "Void"]]);
    assert_eq!(
        Configuration::resolve(&raw).err(),
        Some(ConfigError::MissingRequiredParameter {
            kind: MutationKind::Loops,
            parameter: OptionName::Loops
        })
    );
    raw.blocks[MutationKind::Loops.index()].loops = Some(numbers(&[3]));
    raw.blocks[MutationKind::Void.index()].iterations = Some(numbers(&[8, 9]));
    let cfg = Configuration::resolve(&raw).unwrap();
    assert_eq!(bounds(cfg.spec(MutationKind::Void).unwrap().iterations), (8, 10));
    assert_eq!(bounds(cfg.spec(MutationKind::Loops).unwrap().iterations), (1, 5));
    assert!(cfg.spec(MutationKind::Swap).is_none());
    raw.blocks.clear();
    assert_eq!(
        Configuration::resolve(&raw).err(),
        Some(ConfigError::MissingRequiredParameter {
            kind: MutationKind::Loops,
            parameter: OptionName::Loops
        })
    );
}

#[test]
fn faults_of_a_kind_come_in_order() {
    let mut raw = raw_with(&[&["Gradient"]]);
    let place = MutationKind::Gradient.index();
    let run = Range::new(1, 2).unwrap();
    raw.blocks[place].accelerate_in = Some(numbers(&[1, 2, 3]));
    assert_eq!(
        resolve_kind(&raw, MutationKind::Gradient, run, run).err(),
        Some(ConfigError::MissingRequiredParameter {
            kind: MutationKind::Gradient,
            parameter: OptionName::AccelerateBy
        })
    );
    raw.blocks[place].accelerate_by = Some(numbers(&[1]));
    assert_eq!(resolve_kind(&raw, MutationKind::Gradient, run, run).err(), Some(ConfigError::InvalidRangeShape));
    raw.blocks[place].chunksize = Some(numbers(&[-1]));
    assert_eq!(resolve_kind(&raw, MutationKind::Gradient, run, run).err(), Some(ConfigError::ValueOutOfRange));
    raw.blocks[place].iterations = Some(MutOptionVal::OBool(true));
    assert_eq!(resolve_kind(&raw, MutationKind::Gradient, run, run).err(), Some(ConfigError::InvalidRangeShape));
}

#[test]
fn values_declare_ranges() {
    assert_eq!(bounds(range_from(&MutOptionVal::OInt(4)).unwrap()), (4, 5));
    assert_eq!(bounds(range_from(&numbers(&[9, 1])).unwrap()), (1, 10));
    assert_eq!(range_from(&MutOptionVal::OMap).err(), Some(ConfigError::InvalidRangeShape));
    assert_eq!(range_from(&MutOptionVal::ONone).err(), Some(ConfigError::InvalidRangeShape));
    let mixed = MutOptionVal::OArray(vec![MutOptionVal::OInt(1), MutOptionVal::OString("2".to_string())]);
    assert_eq!(range_from(&mixed).err(), Some(ConfigError::InvalidRangeShape));
    assert_eq!(numbers(&[1, 2]).read_numbers(), Some(vec![1, 2]));
    assert_eq!(MutOptionVal::OString("x".to_string()).read_text(), Some("x".to_string()));
    assert_eq!(MutOptionVal::OInt(1).read_text(), None);
    assert_eq!(names(&[&["a", "b"], &[]]).read_names(), Some(vec![vec!["a".to_string(), "b".to_string()], vec![]]));
    assert_eq!(numbers(&[1]).read_names(), None);
}

#[test]
fn asking_is_found_in_any_combination() {
    let combinations = vec![vec![MutationKind::Void], vec![], vec![MutationKind::Swap, MutationKind::Void]];
    assert!(is_asked_for(&combinations, MutationKind::Void));
    assert!(is_asked_for(&combinations, MutationKind::Swap));
    assert!(!is_asked_for(&combinations, MutationKind::Chaos));
    assert!(!is_asked_for(&Vec::new(), MutationKind::Void));
}

#[test]
fn messages_show_an_example() {
    let missing = ConfigError::MissingRequiredParameter {
        kind: MutationKind::Loops,
        parameter: OptionName::Loops,
    };
    assert_eq!(
        missing.message(),
        "'loops' is required to be set under [LoopConfig], for example: loops = [2, 10]"
    );
    let global = ConfigError::MissingGlobalOption { option: OptionName::Chunksize };
    assert_eq!(
        global.message(),
        "'chunksize' is required to be set globally, for example: chunksize = [100, 2000]"
    );
    let unknown = ConfigError::UnknownMutation { name: "Rainbow".to_string() };
    assert!(unknown.message().starts_with("Invalid mutation: 'Rainbow'."));
    assert!(unknown.message().contains("Void, Chaos, Loops"));
    assert!(ConfigError::InvalidRangeShape.message().contains("iterations = [1, 5]"));
    assert!(ConfigError::ValueOutOfRange.message().contains("negative"));
    assert!(ConfigError::Unparsable.message().contains("TOML"));
    let text = format!("{}mutations = [[\"Loops\"]]\n", BASE);
    let message = Configuration::from_text(&text).err().unwrap().message();
    assert!(message.contains("'loops'"));
}

#[test]
fn tables_and_keys_are_known_by_name() {
    assert_eq!(MutationKind::from_block("LoopConfig"), Some(MutationKind::Loops));
    assert_eq!(MutationKind::from_block("CompressConfig"), Some(MutationKind::Compress));
    assert_eq!(MutationKind::from_block("LoopsConfig"), None);
    assert_eq!(MutationKind::from_block("Loops"), None);
    assert_eq!(OptionName::from_key("accelerate_in"), Some(OptionName::AccelerateIn));
    assert_eq!(OptionName::from_key("accelerate_by"), Some(OptionName::AccelerateBy));
    assert_eq!(OptionName::from_key("inputfile"), Some(OptionName::Inputfile));
    assert_eq!(OptionName::from_key("multiply_by"), Some(OptionName::MultiplyBy));
    assert_eq!(OptionName::from_key("multiplyby"), None);
    for place in 0..12 {
        let option = OptionName::from_index(place);
        assert_eq!(OptionName::from_key(option.as_str()), Some(option));
    }
    for place in 0..11 {
        let kind = MutationKind::from_index(place);
        assert_eq!(MutationKind::from_block(kind.block_name()), Some(kind));
    }
    assert_eq!(MutationKind::from_index(11), MutationKind::Compress);
    assert_eq!(OptionName::from_index(40), OptionName::CompressBy);
}

#[test]
fn options_are_sampled_by_name() {
    let text = format!(
        "{}mutations = [[\"Loops\"]]\n[LoopConfig]\nloops = [2, 6]\nchunksize = 7\n[VoidConfig]\nchunksize = 9\n",
        BASE
    );
    let cfg = Configuration::from_text(&text).unwrap();
    for _ in 0..50 {
        let loops = cfg.generate_int_from_option("LoopConfig", "loops").unwrap();
        assert!((2..7).contains(&loops));
        let iterations = cfg.generate_int_from_option("LoopConfig", "iterations").unwrap();
        assert!((1..5).contains(&iterations));
    }
    assert_eq!(cfg.generate_int_from_option("LoopConfig", "chunksize"), Some(7));
    // Void is not asked for: its table is not looked at
    assert_eq!(cfg.generate_int_from_option("VoidConfig", "chunksize"), Some(100));
    assert_eq!(cfg.generate_int_from_option("Elsewhere", "chunksize"), Some(100));
    assert_eq!(cfg.generate_int_from_option("VoidConfig", "loops"), None);
    assert_eq!(cfg.generate_int_from_option("LoopConfig", "increase_by"), None);
    assert_eq!(cfg.generate_int_from_option("LoopConfig", "inputfile"), None);
    assert_eq!(cfg.generate_int_from_option("LoopConfig", "nothing"), None);
}

#[test]
fn the_factor_of_multiply_is_a_fraction_or_two() {
    let with = |line: &str| format!("{}mutations = [[\"Multiply\"]]\n[MultiplyConfig]\n{}\n", BASE, line);
    assert!(Configuration::from_text(&with("multiply_by = 1.5")).is_ok());
    assert!(Configuration::from_text(&with("multiply_by = [1.5]")).is_ok());
    assert!(Configuration::from_text(&with("multiply_by = [0.5, 2.5]")).is_ok());
    assert_eq!(
        Configuration::from_text(&with("iterations = 3")).err(),
        Some(ConfigError::MissingRequiredParameter {
            kind: MutationKind::Multiply,
            parameter: OptionName::MultiplyBy
        })
    );
    assert_eq!(Configuration::from_text(&with("multiply_by = 2")).err(), Some(ConfigError::InvalidRangeShape));
    assert_eq!(Configuration::from_text(&with("multiply_by = []")).err(), Some(ConfigError::InvalidRangeShape));
    assert_eq!(
        Configuration::from_text(&with("multiply_by = [0.1, 0.2, 0.3]")).err(),
        Some(ConfigError::InvalidRangeShape)
    );
    assert_eq!(
        Configuration::from_text(&with("multiply_by = \"twice\"")).err(),
        Some(ConfigError::InvalidRangeShape)
    );
    let cfg = Configuration::from_text(&with("multiply_by = 1.5")).unwrap();
    assert_eq!(cfg.spec(MutationKind::Multiply).unwrap().extras, Extras::Plain);
    assert_eq!(MutOptionVal::OFloat.count_fractions(), Some(1));
    assert_eq!(MutOptionVal::OInt(1).count_fractions(), None);
    assert_eq!(MutOptionVal::OArray(vec![MutOptionVal::OFloat, MutOptionVal::OFloat]).count_fractions(), Some(2));
}

#[test]
fn one_text_resolves_alike_every_time() {
    let text = format!(
        "{}mutations = [[\"Loops\", \"Void\"]]\n[LoopConfig]\nloops = [2, 6]\nchunksize = 7\n",
        BASE
    );
    let first = Configuration::from_text(&text).unwrap();
    let second = Configuration::from_text(&text).unwrap();
    assert_eq!(first.get_mutations(), second.get_mutations());
    assert_eq!(first.get_inputfile(), second.get_inputfile());
    for place in 0..11 {
        let kind = MutationKind::from_index(place);
        assert_eq!(first.spec(kind), second.spec(kind));
    }
    let broken = format!("{}mutations = [[\"Loops\"]]\n", BASE);
    assert_eq!(Configuration::from_text(&broken).err(), Configuration::from_text(&broken).err());
    // a text that is TOML but names no table of options at all
    assert_eq!(
        Configuration::from_text("").err(),
        Some(ConfigError::MissingGlobalOption { option: OptionName::Mutations })
    );
}
