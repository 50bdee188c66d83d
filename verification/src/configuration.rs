//! The configuration of a run and its resolution from the options.
//!
//! The options name the files, the combinations of mutations to apply, and
//! ranges for the number of iterations and the chunk size; a table for a
//! kind of mutation may override the two ranges and holds the parameters
//! that only this kind has. Resolution checks all of this in a fixed order,
//! stops at the first thing that is wrong, and gives a configuration that
//! holds, for exactly the kinds that are asked for, the ranges that their
//! parameters are sampled from.

use crate::error::ConfigError;
use crate::error::ConfigFault;
use crate::kind::KIND_COUNT;
use crate::kind::MutationKind;
use crate::kind::OptionName;
use crate::options::MutOptionVal;
use crate::options::cfg_entries;
use crate::options::held;
use crate::options::OptionContent;
use crate::options::names_of;
use crate::options::toml_entries;
use crate::options::parse_tree;
use crate::options::RawOptions;
use crate::options::read_from;
use crate::options::read_options;
use crate::range::declared_fault;
use crate::range::declared_high;
use crate::range::declared_low;
use crate::range::normalize;
use crate::range::Range;
use cfgmap::CfgMap;
use vstd::prelude::*;

verus! {

/// The ranges of the parameters that only some kinds of mutation have.
#[derive(Clone, Copy, Debug, PartialEq, Eq, Structural)]
pub enum Extras {
    /// No parameter beyond the number of iterations and the chunk size.
    Plain,
    /// How often Loops repeats a byte.
    Loops { loops: Range },
    /// What Increase adds to a byte.
    Increase { increase_by: Range },
    /// The amount that Gradient starts with and grows by, and the number of
    /// bytes after which it grows.
    Gradient { accelerate_by: Range, accelerate_in: Range },
    /// The distance between the bytes that Compress keeps.
    Compress { compress_by: Range },
}

/// The resolved parameters of one kind of mutation.
#[derive(Clone, Copy, Debug, PartialEq, Eq, Structural)]
pub struct MutationSpec {
    pub kind: MutationKind,
    pub iterations: Range,
    pub chunksize: Range,
    pub extras: Extras,
}

impl MutationSpec {
    /// The range that the parameters hold for `option`, if they hold one.
    pub open spec fn range_of(self, option: OptionName) -> Option<Range> {
        match option {
            OptionName::Iterations => Some(self.iterations),
            OptionName::Chunksize => Some(self.chunksize),
            OptionName::Loops => match self.extras {
                Extras::Loops { loops } => Some(loops),
                _ => None,
            },
            OptionName::IncreaseBy => match self.extras {
                Extras::Increase { increase_by } => Some(increase_by),
                _ => None,
            },
            OptionName::AccelerateBy => match self.extras {
                Extras::Gradient { accelerate_by, .. } => Some(accelerate_by),
                _ => None,
            },
            OptionName::AccelerateIn => match self.extras {
                Extras::Gradient { accelerate_in, .. } => Some(accelerate_in),
                _ => None,
            },
            OptionName::CompressBy => match self.extras {
                Extras::Compress { compress_by } => Some(compress_by),
                _ => None,
            },
            _ => None,
        }
    }

    /// The range that the parameters hold for `option`.
    pub fn range(&self, option: OptionName) -> (found: Option<Range>)
        ensures
            found == self.range_of(option),
    {
        match option {
            OptionName::Iterations => Some(self.iterations),
            OptionName::Chunksize => Some(self.chunksize),
            OptionName::Loops => match self.extras {
                Extras::Loops { loops } => Some(loops),
                _ => None,
            },
            OptionName::IncreaseBy => match self.extras {
                Extras::Increase { increase_by } => Some(increase_by),
                _ => None,
            },
            OptionName::AccelerateBy => match self.extras {
                Extras::Gradient { accelerate_by, .. } => Some(accelerate_by),
                _ => None,
            },
            OptionName::AccelerateIn => match self.extras {
                Extras::Gradient { accelerate_in, .. } => Some(accelerate_in),
                _ => None,
            },
            OptionName::CompressBy => match self.extras {
                Extras::Compress { compress_by } => Some(compress_by),
                _ => None,
            },
            _ => None,
        }
    }

    /// Whether the extra parameters are those of the kind.
    pub open spec fn wf(self) -> bool {
        match self.kind {
            MutationKind::Loops => self.extras is Loops,
            MutationKind::Increase => self.extras is Increase,
            MutationKind::Gradient => self.extras is Gradient,
            MutationKind::Compress => self.extras is Compress,
            _ => self.extras is Plain,
        }
    }
}

/// Whether `kind` occurs in one of the combinations.
pub open spec fn asked_for(combinations: Seq<Seq<MutationKind>>, kind: MutationKind) -> bool {
    exists|i: int, j: int|
        0 <= i < combinations.len() && 0 <= j < combinations[i].len() && combinations[i][j] == kind
}

/// Why `value` declares no range, if it does not: it is no integer and no
/// list of integers, or its numbers declare none.
pub open spec fn value_fault(value: MutOptionVal) -> Option<ConfigFault> {
    match value.numbers() {
        Some(values) => declared_fault(values),
        None => Some(ConfigFault::InvalidRangeShape),
    }
}

/// Why `value` declares no range of fractions, if it does not: it is no
/// fraction and no list of one or two fractions.
pub open spec fn fraction_fault(value: MutOptionVal) -> Option<ConfigFault> {
    match value.fractions() {
        Some(count) => if 1 <= count <= 2 {
            None
        } else {
            Some(ConfigFault::InvalidRangeShape)
        },
        None => Some(ConfigFault::InvalidRangeShape),
    }
}

/// Whether `range` is the range that `value` declares.
pub open spec fn declares(range: Range, value: MutOptionVal) -> bool {
    &&& value.numbers() matches Some(values)
    &&& range.low() == declared_low(values)
    &&& range.high() == declared_high(values)
}

/// The range that a value of the option tree declares.
pub fn range_from(value: &MutOptionVal) -> (made: Result<Range, ConfigError>)
    ensures
        match value_fault(*value) {
            Some(fault) => made matches Err(e) && e@ == fault,
            None => made matches Ok(range) && declares(range, *value),
        },
{
    match value.read_numbers() {
        Some(values) => normalize(values.as_slice()),
        None => Err(ConfigError::InvalidRangeShape),
    }
}

/// What is wrong with a value that a kind may declare for itself and
/// otherwise takes from the run: nothing where it is absent.
pub open spec fn own_fault(entry: Option<MutOptionVal>) -> Option<ConfigFault> {
    match entry {
        Some(value) => value_fault(value),
        None => None,
    }
}

/// What is wrong with a parameter that only `kind` has: it has to be there.
/// The factor of Multiply is a range of fractions; every other parameter is a
/// range of whole numbers.
pub open spec fn extra_fault(raw: RawOptions, kind: MutationKind, parameter: Option<OptionName>) -> Option<
    ConfigFault,
> {
    match parameter {
        Some(parameter) => match raw.entry(kind, parameter) {
            Some(value) => if parameter == OptionName::MultiplyBy {
                fraction_fault(value)
            } else {
                value_fault(value)
            },
            None => Some(ConfigFault::MissingRequiredParameter { kind, parameter }),
        },
        None => None,
    }
}

/// The first thing that is wrong with the options of `kind`: its number of
/// iterations, its chunk size, and the parameters of its own are looked at
/// in this order.
pub open spec fn kind_fault(raw: RawOptions, kind: MutationKind) -> Option<ConfigFault> {
    if own_fault(raw.entry(kind, OptionName::Iterations)) is Some {
        own_fault(raw.entry(kind, OptionName::Iterations))
    } else if own_fault(raw.entry(kind, OptionName::Chunksize)) is Some {
        own_fault(raw.entry(kind, OptionName::Chunksize))
    } else if extra_fault(raw, kind, kind.first_extra()) is Some {
        extra_fault(raw, kind, kind.first_extra())
    } else {
        extra_fault(raw, kind, kind.second_extra())
    }
}

/// Whether `range` is what `entry` declares, or `fallback` where there is no
/// entry.
pub open spec fn own_or(range: Range, entry: Option<MutOptionVal>, fallback: Range) -> bool {
    match entry {
        Some(value) => declares(range, value),
        None => range == fallback,
    }
}

/// Whether `spec` holds what the options declare for `kind`: its own number
/// of iterations and chunk size where its table has them, those of the run
/// otherwise, and the parameters of its own. The factor of Multiply is not
/// held: it is a fraction.
pub open spec fn resolves(
    spec: MutationSpec,
    raw: RawOptions,
    kind: MutationKind,
    iterations: Range,
    chunksize: Range,
) -> bool {
    &&& spec.kind == kind
    &&& spec.wf()
    &&& own_or(spec.iterations, raw.entry(kind, OptionName::Iterations), iterations)
    &&& own_or(spec.chunksize, raw.entry(kind, OptionName::Chunksize), chunksize)
    &&& match spec.extras {
        Extras::Plain => true,
        Extras::Loops { loops } => raw.entry(kind, OptionName::Loops) matches Some(value)
            && declares(loops, value),
        Extras::Increase { increase_by } => raw.entry(kind, OptionName::IncreaseBy) matches Some(
            value,
        ) && declares(increase_by, value),
        Extras::Gradient { accelerate_by, accelerate_in } => {
            &&& raw.entry(kind, OptionName::AccelerateBy) matches Some(value) && declares(
                accelerate_by,
                value,
            )
            &&& raw.entry(kind, OptionName::AccelerateIn) matches Some(value) && declares(
                accelerate_in,
                value,
            )
        },
        Extras::Compress { compress_by } => raw.entry(kind, OptionName::CompressBy) matches Some(
            value,
        ) && declares(compress_by, value),
    }
}

/// A range that a kind may declare for itself.
fn own_range(raw: &RawOptions, kind: MutationKind, option: OptionName, fallback: Range) -> (made:
    Result<Range, ConfigError>)
    ensures
        match own_fault(raw.entry(kind, option)) {
            Some(fault) => made matches Err(e) && e@ == fault,
            None => made matches Ok(range) && own_or(range, raw.entry(kind, option), fallback),
        },
{
    match raw.get(kind, option) {
        Some(value) => range_from(value),
        None => Ok(fallback),
    }
}

/// The range of a parameter of whole numbers that only `kind` has.
fn extra_range(raw: &RawOptions, kind: MutationKind, parameter: OptionName) -> (made: Result<
    Range,
    ConfigError,
>)
    requires
        parameter != OptionName::MultiplyBy,
    ensures
        match extra_fault(*raw, kind, Some(parameter)) {
            Some(fault) => made matches Err(e) && e@ == fault,
            None => made matches Ok(range) && raw.entry(kind, parameter) matches Some(value)
                && declares(range, value),
        },
{
    match raw.get(kind, parameter) {
        Some(value) => range_from(value),
        None => Err(ConfigError::MissingRequiredParameter { kind, parameter }),
    }
}

/// Checks the factor of Multiply: it has to be declared as one fraction or
/// two. Its value is left to whoever multiplies.
fn check_factor(raw: &RawOptions) -> (made: Result<(), ConfigError>)
    ensures
        match extra_fault(*raw, MutationKind::Multiply, Some(OptionName::MultiplyBy)) {
            Some(fault) => made matches Err(e) && e@ == fault,
            None => made is Ok,
        },
{
    match raw.get(MutationKind::Multiply, OptionName::MultiplyBy) {
        Some(value) => match value.count_fractions() {
            Some(count) => if 1 <= count && count <= 2 {
                Ok(())
            } else {
                Err(ConfigError::InvalidRangeShape)
            },
            None => Err(ConfigError::InvalidRangeShape),
        },
        None => Err(
            ConfigError::MissingRequiredParameter {
                kind: MutationKind::Multiply,
                parameter: OptionName::MultiplyBy,
            },
        ),
    }
}

/// Resolves the parameters of `kind`: its own options where its table
/// declares them, `iterations` and `chunksize` of the run where it does not.
/// A parameter that only this kind has must stand in its table; the run has
/// none to fall back on.
pub fn resolve_kind(raw: &RawOptions, kind: MutationKind, iterations: Range, chunksize: Range) -> (made:
    Result<MutationSpec, ConfigError>)
    ensures
        match kind_fault(*raw, kind) {
            Some(fault) => made matches Err(e) && e@ == fault,
            None => made matches Ok(spec) && resolves(spec, *raw, kind, iterations, chunksize),
        },
{
    let own_iterations = match own_range(raw, kind, OptionName::Iterations, iterations) {
        Ok(range) => range,
        Err(e) => { return Err(e); },
    };
    let own_chunksize = match own_range(raw, kind, OptionName::Chunksize, chunksize) {
        Ok(range) => range,
        Err(e) => { return Err(e); },
    };
    let extras = match kind {
        MutationKind::Loops => match extra_range(raw, kind, OptionName::Loops) {
            Ok(loops) => Extras::Loops { loops },
            Err(e) => { return Err(e); },
        },
        MutationKind::Increase => match extra_range(raw, kind, OptionName::IncreaseBy) {
            Ok(increase_by) => Extras::Increase { increase_by },
            Err(e) => { return Err(e); },
        },
        MutationKind::Gradient => {
            let accelerate_by = match extra_range(raw, kind, OptionName::AccelerateBy) {
                Ok(range) => range,
                Err(e) => { return Err(e); },
            };
            match extra_range(raw, kind, OptionName::AccelerateIn) {
                Ok(accelerate_in) => Extras::Gradient { accelerate_by, accelerate_in },
                Err(e) => { return Err(e); },
            }
        },
        MutationKind::Multiply => match check_factor(raw) {
            Ok(()) => Extras::Plain,
            Err(e) => { return Err(e); },
        },
        MutationKind::Compress => match extra_range(raw, kind, OptionName::CompressBy) {
            Ok(compress_by) => Extras::Compress { compress_by },
            Err(e) => { return Err(e); },
        },
        _ => Extras::Plain,
    };
    Ok(MutationSpec { kind, iterations: own_iterations, chunksize: own_chunksize, extras })
}

/// The combinations held in vectors, as sequences.
pub open spec fn combinations_of(held: Seq<Vec<MutationKind>>) -> Seq<Seq<MutationKind>> {
    Seq::new(held.len(), |i: int| held[i]@)
}

/// The first name of `row`, from place `from` on, that names no mutation.
pub open spec fn unknown_in(row: Seq<Seq<char>>, from: int) -> Option<Seq<char>>
    decreases row.len() - from,
{
    if from < 0 || from >= row.len() {
        None
    } else if MutationKind::named(row[from]) is None {
        Some(row[from])
    } else {
        unknown_in(row, from + 1)
    }
}

/// The first name of the combinations, from combination `from` on, that
/// names no mutation.
pub open spec fn first_unknown(names: Seq<Seq<Seq<char>>>, from: int) -> Option<Seq<char>>
    decreases names.len() - from,
{
    if from < 0 || from >= names.len() {
        None
    } else if unknown_in(names[from], 0) is Some {
        unknown_in(names[from], 0)
    } else {
        first_unknown(names, from + 1)
    }
}

/// The kinds that a list of names asks for.
pub open spec fn row_named(row: Seq<Seq<char>>) -> Seq<MutationKind> {
    Seq::new(row.len(), |j: int| MutationKind::named(row[j])->0)
}

/// The combinations of kinds that combinations of names ask for.
pub open spec fn kinds_named(names: Seq<Seq<Seq<char>>>) -> Seq<Seq<MutationKind>> {
    Seq::new(names.len(), |i: int| row_named(names[i]))
}

/// The kinds that one combination of names asks for, or its first name that
/// names no mutation.
fn verify_row(row: &Vec<String>) -> (made: Result<Vec<MutationKind>, ConfigError>)
    ensures
        match unknown_in(crate::options::texts_of(row@), 0) {
            Some(name) => made matches Err(e) && e@ == (ConfigFault::UnknownMutation { name }),
            None => made matches Ok(kinds) && kinds@ == row_named(crate::options::texts_of(row@)),
        },
{
    let ghost texts = crate::options::texts_of(row@);
    let mut kinds: Vec<MutationKind> = Vec::new();
    let mut k: usize = 0;
    while k < row.len()
        invariant
            k <= row@.len(),
            texts == crate::options::texts_of(row@),
            kinds@.len() == k,
            unknown_in(texts, 0) == unknown_in(texts, k as int),
            forall|j: int| 0 <= j < k ==> kinds@[j] == MutationKind::named(#[trigger] texts[j])->0,
        decreases row@.len() - k,
    {
        match MutationKind::from_name(row[k].as_str()) {
            Some(kind) => { kinds.push(kind); },
            None => {
                return Err(ConfigError::UnknownMutation { name: row[k].clone() });
            },
        }
        k += 1;
    }
    assert(kinds@ =~= row_named(texts));
    Ok(kinds)
}

/// Whether `kind` occurs in one of the combinations.
pub fn is_asked_for(combinations: &Vec<Vec<MutationKind>>, kind: MutationKind) -> (asked: bool)
    ensures
        asked == asked_for(combinations_of(combinations@), kind),
{
    let mut i: usize = 0;
    while i < combinations.len()
        invariant
            i <= combinations@.len(),
            forall|a: int, b: int|
                0 <= a < i && 0 <= b < combinations@[a]@.len() ==> combinations@[a]@[b] != kind,
        decreases combinations@.len() - i,
    {
        let row = &combinations[i];
        let mut j: usize = 0;
        while j < row.len()
            invariant
                j <= row@.len(),
                i < combinations@.len(),
                row@ == combinations@[i as int]@,
                forall|b: int| 0 <= b < j ==> row@[b] != kind,
            decreases row@.len() - j,
        {
            if row[j] == kind {
                assert(combinations_of(combinations@)[i as int][j as int] == kind);
                return true;
            }
            j += 1;
        }
        i += 1;
    }
    false
}

/// How often a run is repeated: as often as `times` says, once where it says
/// nothing, never where it says less than once.
pub open spec fn repeats_declared(times: Option<MutOptionVal>) -> int {
    match held(times) {
        Some(OptionContent::Int(count)) => if count < 0 {
            0
        } else {
            count as int
        },
        _ => 1,
    }
}

/// What is wrong with an option that every run needs: it has to be there.
pub open spec fn global_fault(entry: Option<MutOptionVal>, option: OptionName) -> Option<ConfigFault> {
    match entry {
        Some(value) => value_fault(value),
        None => Some(ConfigFault::MissingGlobalOption { option }),
    }
}

/// The first thing that is wrong with the options of a kind that `used` asks
/// for, the kinds gone through in their order, from place `from` on.
pub open spec fn kinds_fault(raw: RawOptions, used: Seq<Seq<MutationKind>>, from: int) -> Option<
    ConfigFault,
>
    decreases KIND_COUNT - from,
{
    if from < 0 || from >= KIND_COUNT {
        None
    } else if asked_for(used, MutationKind::at(from)) && kind_fault(raw, MutationKind::at(from))
        is Some {
        kind_fault(raw, MutationKind::at(from))
    } else {
        kinds_fault(raw, used, from + 1)
    }
}

/// The combinations of names that the options ask for.
pub open spec fn names_asked(raw: RawOptions) -> Option<Seq<Seq<Seq<char>>>> {
    match raw.mutations {
        Some(value) => value.names(),
        None => None,
    }
}

/// The name of the input file that the options give.
pub open spec fn input_given(raw: RawOptions) -> Option<Seq<char>> {
    match raw.inputfile {
        Some(value) => value.text(),
        None => None,
    }
}

/// The name of the output file that the options give.
pub open spec fn output_given(raw: RawOptions) -> Option<Seq<char>> {
    match raw.outputfile {
        Some(value) => value.text(),
        None => None,
    }
}

/// The first thing that is wrong with the options, if anything is. The
/// combinations are looked at first: they must be there, and each name must
/// name a mutation. Then come the number of iterations and the chunk size of
/// the run, then the options of each kind that is asked for, and last the
/// name of the input file.
pub open spec fn resolution_fault(raw: RawOptions) -> Option<ConfigFault> {
    match names_asked(raw) {
        None => Some(ConfigFault::MissingGlobalOption { option: OptionName::Mutations }),
        Some(names) => if first_unknown(names, 0) is Some {
            Some(ConfigFault::UnknownMutation { name: first_unknown(names, 0)->0 })
        } else if global_fault(raw.iterations, OptionName::Iterations) is Some {
            global_fault(raw.iterations, OptionName::Iterations)
        } else if global_fault(raw.chunksize, OptionName::Chunksize) is Some {
            global_fault(raw.chunksize, OptionName::Chunksize)
        } else if kinds_fault(raw, kinds_named(names), 0) is Some {
            kinds_fault(raw, kinds_named(names), 0)
        } else if input_given(raw) is None {
            Some(ConfigFault::MissingGlobalOption { option: OptionName::Inputfile })
        } else {
            None
        },
    }
}

/// Whether two sets of options hold the same: each option of the run and
/// each option of each kind holds in the one what it holds in the other.
pub open spec fn same_contents(a: RawOptions, b: RawOptions) -> bool {
    &&& held(a.inputfile) == held(b.inputfile)
    &&& held(a.outputfile) == held(b.outputfile)
    &&& held(a.times) == held(b.times)
    &&& held(a.mutations) == held(b.mutations)
    &&& held(a.iterations) == held(b.iterations)
    &&& held(a.chunksize) == held(b.chunksize)
    &&& forall|kind: MutationKind, option: OptionName|
        held(#[trigger] a.entry(kind, option)) == held(b.entry(kind, option))
}

/// What is wrong with the options of a kind depends on what they hold alone.
pub proof fn lemma_kind_fault_by_contents(a: RawOptions, b: RawOptions, kind: MutationKind)
    requires
        same_contents(a, b),
    ensures
        kind_fault(a, kind) == kind_fault(b, kind),
{
    assert(held(a.entry(kind, OptionName::Iterations)) == held(
        b.entry(kind, OptionName::Iterations),
    ));
    assert(held(a.entry(kind, OptionName::Chunksize)) == held(b.entry(kind, OptionName::Chunksize)));
    if kind.first_extra() is Some {
        let parameter = kind.first_extra()->0;
        assert(held(a.entry(kind, parameter)) == held(b.entry(kind, parameter)));
    }
    if kind.second_extra() is Some {
        let parameter = kind.second_extra()->0;
        assert(held(a.entry(kind, parameter)) == held(b.entry(kind, parameter)));
    }
}

/// What is wrong with the options of the kinds that are asked for depends on
/// what the options hold alone.
pub proof fn lemma_kinds_fault_by_contents(
    a: RawOptions,
    b: RawOptions,
    used: Seq<Seq<MutationKind>>,
    from: int,
)
    requires
        same_contents(a, b),
    ensures
        kinds_fault(a, used, from) == kinds_fault(b, used, from),
    decreases KIND_COUNT - from,
{
    if 0 <= from < KIND_COUNT {
        lemma_kind_fault_by_contents(a, b, MutationKind::at(from));
        lemma_kinds_fault_by_contents(a, b, used, from + 1);
    }
}

/// The first thing that is wrong with the options depends on what they hold
/// alone: options that hold the same have the same fault, or none both.
pub proof fn lemma_fault_by_contents(a: RawOptions, b: RawOptions)
    requires
        same_contents(a, b),
    ensures
        resolution_fault(a) == resolution_fault(b),
{
    if names_asked(a) is Some {
        lemma_kinds_fault_by_contents(a, b, kinds_named(names_asked(a)->0), 0);
    }
}

/// `made` is what resolving `raw` gives: its first fault, or a configuration
/// that is resolved from it.
pub open spec fn resolution_outcome(made: Result<Configuration, ConfigError>, raw: RawOptions) -> bool {
    match resolution_fault(raw) {
        Some(fault) => made matches Err(e) && e@ == fault,
        None => made matches Ok(cfg) && cfg.resolved_from(raw),
    }
}

/// Options that are read out of one tree hold the same.
pub proof fn lemma_read_alike(a: RawOptions, b: RawOptions, tree: CfgMap)
    requires
        read_from(a, tree),
        read_from(b, tree),
    ensures
        same_contents(a, b),
{
    assert forall|kind: MutationKind, option: OptionName|
        held(#[trigger] a.entry(kind, option)) == held(b.entry(kind, option)) by {
        let place = kind.ordinal();
        assert(MutationKind::at(place) == kind);
        let ours = a.blocks@[place];
        let theirs = b.blocks@[place];
        assert(a.entry(kind, option) == ours.entry(option));
        assert(b.entry(kind, option) == theirs.entry(option));
    }
}

/// What resolving gives depends on what the options hold alone: a result
/// that is the outcome for some options is the outcome for all options that
/// hold the same.
pub proof fn lemma_outcome_by_contents(
    made: Result<Configuration, ConfigError>,
    a: RawOptions,
    b: RawOptions,
)
    requires
        same_contents(a, b),
        resolution_outcome(made, a),
    ensures
        resolution_outcome(made, b),
{
    lemma_fault_by_contents(a, b);
    if resolution_fault(a) is None {
        let cfg = made->Ok_0;
        assert forall|kind: MutationKind| asked_for(cfg.requested(), kind) implies resolves(
            (#[trigger] cfg.spec_of(kind))->0,
            b,
            kind,
            cfg.iterations_of_run(),
            cfg.chunksize_of_run(),
        ) by {
            let spec = cfg.spec_of(kind)->0;
            assert(resolves(spec, a, kind, cfg.iterations_of_run(), cfg.chunksize_of_run()));
            assert(held(a.entry(kind, OptionName::Iterations)) == held(
                b.entry(kind, OptionName::Iterations),
            ));
            assert(held(a.entry(kind, OptionName::Chunksize)) == held(
                b.entry(kind, OptionName::Chunksize),
            ));
            assert(held(a.entry(kind, OptionName::Loops)) == held(b.entry(kind, OptionName::Loops)));
            assert(held(a.entry(kind, OptionName::IncreaseBy)) == held(
                b.entry(kind, OptionName::IncreaseBy),
            ));
            assert(held(a.entry(kind, OptionName::AccelerateBy)) == held(
                b.entry(kind, OptionName::AccelerateBy),
            ));
            assert(held(a.entry(kind, OptionName::AccelerateIn)) == held(
                b.entry(kind, OptionName::AccelerateIn),
            ));
            assert(held(a.entry(kind, OptionName::CompressBy)) == held(
                b.entry(kind, OptionName::CompressBy),
            ));
        }
    }
}

/// What a text resolves to is settled by the text, as far as contracts can
/// tell: two results that `from_text` may give for one text are both errors
/// with one fault, or both configurations that are resolved from the same
/// options.
pub proof fn lemma_text_settles_outcome(
    first: Result<Configuration, ConfigError>,
    tree: CfgMap,
    raw: RawOptions,
    second: Result<Configuration, ConfigError>,
    other_tree: CfgMap,
    other_raw: RawOptions,
)
    requires
        cfg_entries(tree) == cfg_entries(other_tree),
        read_from(raw, tree),
        read_from(other_raw, other_tree),
        resolution_outcome(first, raw),
        resolution_outcome(second, other_raw),
    ensures
        resolution_outcome(second, raw),
        first is Err <==> second is Err,
        first is Err ==> first->Err_0@ == second->Err_0@,
{
    assert(read_from(other_raw, tree));
    lemma_read_alike(other_raw, raw, tree);
    lemma_outcome_by_contents(second, other_raw, raw);
}

/// The configuration of a run: the files, the combinations of mutations to
/// apply, and the parameters of each mutation that a combination asks for.
pub struct Configuration {
    inputfile: String,
    outputfile: String,
    times: u64,
    iterations: Range,
    chunksize: Range,
    combinations: Vec<Vec<MutationKind>>,
    specs: Vec<Option<MutationSpec>>,
}

impl Configuration {
    #[verifier::type_invariant]
    spec fn mirrors_request(self) -> bool {
        &&& self.specs@.len() == KIND_COUNT
        &&& forall|place: int|
            0 <= place < KIND_COUNT ==> (#[trigger] self.specs@[place] matches Some(spec)
                ==> spec.wf() && spec.kind.ordinal() == place)
        &&& forall|place: int|
            0 <= place < KIND_COUNT ==> (#[trigger] self.specs@[place] is Some <==> asked_for(
                combinations_of(self.combinations@),
                MutationKind::at(place),
            ))
    }

    /// The combinations that are asked for, in their order.
    pub closed spec fn requested(self) -> Seq<Seq<MutationKind>> {
        combinations_of(self.combinations@)
    }

    /// The parameters of `kind`, where a combination asks for it.
    pub closed spec fn spec_of(self, kind: MutationKind) -> Option<MutationSpec> {
        self.specs@[kind.ordinal()]
    }

    /// The name of the input file.
    pub closed spec fn input(self) -> Seq<char> {
        self.inputfile@
    }

    /// The name of the output file.
    pub closed spec fn output(self) -> Seq<char> {
        self.outputfile@
    }

    /// How often the run is repeated.
    pub closed spec fn repeats(self) -> int {
        self.times as int
    }

    /// The range of the number of iterations of the run.
    pub closed spec fn iterations_of_run(self) -> Range {
        self.iterations
    }

    /// The range of the chunk size of the run.
    pub closed spec fn chunksize_of_run(self) -> Range {
        self.chunksize
    }

    /// Whether the configuration is what the options resolve to. It asks for
    /// the combinations that the options name, and holds parameters for
    /// exactly the kinds that occur in them.
    pub open spec fn resolved_from(self, raw: RawOptions) -> bool {
        &&& names_asked(raw) matches Some(names) && self.requested() == kinds_named(names)
        &&& input_given(raw) == Some(self.input())
        &&& self.output() == match output_given(raw) {
            Some(name) => name,
            None => self.input(),
        }
        &&& self.repeats() == repeats_declared(raw.times)
        &&& raw.iterations matches Some(value) && declares(self.iterations_of_run(), value)
        &&& raw.chunksize matches Some(value) && declares(self.chunksize_of_run(), value)
        &&& forall|kind: MutationKind| #[trigger]
            self.spec_of(kind) is Some <==> asked_for(self.requested(), kind)
        &&& forall|kind: MutationKind|
            asked_for(self.requested(), kind) ==> resolves(
                (#[trigger] self.spec_of(kind))->0,
                raw,
                kind,
                self.iterations_of_run(),
                self.chunksize_of_run(),
            )
    }

    /// Checks the names of the combinations: each has to name one of the
    /// eleven mutations. Gives the combinations as kinds, or the first name,
    /// in reading order, that names none.
    pub fn verify_config(names: &Vec<Vec<String>>) -> (made: Result<
        Vec<Vec<MutationKind>>,
        ConfigError,
    >)
        ensures
            match first_unknown(names_of(names@), 0) {
                Some(name) => made matches Err(e) && e@ == (ConfigFault::UnknownMutation { name }),
                None => made matches Ok(kinds) && combinations_of(kinds@) == kinds_named(
                    names_of(names@),
                ),
            },
    {
        let ghost texts = names_of(names@);
        let mut kinds: Vec<Vec<MutationKind>> = Vec::new();
        let mut k: usize = 0;
        while k < names.len()
            invariant
                k <= names@.len(),
                texts == names_of(names@),
                kinds@.len() == k,
                first_unknown(texts, 0) == first_unknown(texts, k as int),
                forall|i: int| 0 <= i < k ==> (#[trigger] kinds@[i])@ == row_named(texts[i]),
            decreases names@.len() - k,
        {
            match verify_row(&names[k]) {
                Ok(row) => { kinds.push(row); },
                Err(e) => { return Err(e); },
            }
            k += 1;
        }
        assert(combinations_of(kinds@) =~= kinds_named(texts));
        Ok(kinds)
    }

    /// Resolves the options of a run. Every kind that a combination asks for
    /// gets its parameters; the tables of the other kinds are not looked at.
    /// Stops at the first thing that is wrong.
    #[verifier::loop_isolation(false)]
    pub fn resolve(raw: &RawOptions) -> (made: Result<Configuration, ConfigError>)
        ensures
            match resolution_fault(*raw) {
                Some(fault) => made matches Err(e) && e@ == fault,
                None => made matches Ok(cfg) && cfg.resolved_from(*raw),
            },
    {
        let names = match &raw.mutations {
            Some(value) => match value.read_names() {
                Some(names) => names,
                None => {
                    return Err(ConfigError::MissingGlobalOption { option: OptionName::Mutations });
                },
            },
            None => {
                return Err(ConfigError::MissingGlobalOption { option: OptionName::Mutations });
            },
        };
        let combinations = match Configuration::verify_config(&names) {
            Ok(kinds) => kinds,
            Err(e) => { return Err(e); },
        };
        let iterations = match &raw.iterations {
            Some(value) => match range_from(value) {
                Ok(range) => range,
                Err(e) => { return Err(e); },
            },
            None => {
                return Err(ConfigError::MissingGlobalOption { option: OptionName::Iterations });
            },
        };
        let chunksize = match &raw.chunksize {
            Some(value) => match range_from(value) {
                Ok(range) => range,
                Err(e) => { return Err(e); },
            },
            None => {
                return Err(ConfigError::MissingGlobalOption { option: OptionName::Chunksize });
            },
        };
        let ghost used = combinations_of(combinations@);
        let mut specs: Vec<Option<MutationSpec>> = Vec::new();
        let mut place: usize = 0;
        while place < KIND_COUNT
            invariant
                place <= KIND_COUNT,
                used == combinations_of(combinations@),
                specs@.len() == place,
                kinds_fault(*raw, used, 0) == kinds_fault(*raw, used, place as int),
                forall|before: int|
                    0 <= before < place ==> (#[trigger] specs@[before] is Some <==> asked_for(
                        used,
                        MutationKind::at(before),
                    )),
                forall|before: int|
                    0 <= before < place ==> (#[trigger] specs@[before] matches Some(spec)
                        ==> resolves(spec, *raw, MutationKind::at(before), iterations, chunksize)),
            decreases KIND_COUNT - place,
        {
            let kind = MutationKind::from_index(place);
            if is_asked_for(&combinations, kind) {
                match resolve_kind(raw, kind, iterations, chunksize) {
                    Ok(spec) => { specs.push(Some(spec)); },
                    Err(e) => { return Err(e); },
                }
            } else {
                specs.push(None);
            }
            place += 1;
        }
        let inputfile = match &raw.inputfile {
            Some(value) => match value.read_text() {
                Some(name) => name,
                None => {
                    return Err(ConfigError::MissingGlobalOption { option: OptionName::Inputfile });
                },
            },
            None => {
                return Err(ConfigError::MissingGlobalOption { option: OptionName::Inputfile });
            },
        };
        let outputfile = match &raw.outputfile {
            Some(value) => match value.read_text() {
                Some(name) => name,
                None => inputfile.clone(),
            },
            None => inputfile.clone(),
        };
        let times: u64 = match &raw.times {
            Some(MutOptionVal::OInt(count)) => if *count < 0 {
                0
            } else {
                *count as u64
            },
            _ => 1,
        };
        let cfg = Configuration {
            inputfile,
            outputfile,
            times,
            iterations,
            chunksize,
            combinations,
            specs,
        };
        proof {
            assert forall|kind: MutationKind| #[trigger]
                cfg.spec_of(kind) is Some <==> asked_for(cfg.requested(), kind) by {
                assert(MutationKind::at(kind.ordinal()) == kind);
            }
            assert forall|kind: MutationKind| asked_for(cfg.requested(), kind) implies resolves(
                (#[trigger] cfg.spec_of(kind))->0,
                *raw,
                kind,
                cfg.iterations_of_run(),
                cfg.chunksize_of_run(),
            ) by {
                assert(MutationKind::at(kind.ordinal()) == kind);
            }
        }
        Ok(cfg)
    }

    /// Makes the configuration that the text of a TOML file describes: the
    /// text is parsed into an option tree, the options are read out of the
    /// tree, and they are resolved. A text that describes no table of TOML
    /// is refused as unparsable; any other text gives what resolving the
    /// options of its tree gives.
    pub fn from_text(text: &str) -> (made: Result<Configuration, ConfigError>)
        ensures
            toml_entries(text@) is None ==> made is Err && made->Err_0@ == ConfigFault::Unparsable,
            toml_entries(text@) is Some ==> exists|tree: CfgMap, raw: RawOptions|
                #![trigger read_from(raw, tree), resolution_outcome(made, raw)]
                cfg_entries(tree) == toml_entries(text@)->0 && read_from(raw, tree)
                    && resolution_outcome(made, raw),
    {
        let tree = match parse_tree(text) {
            Some(tree) => tree,
            None => { return Err(ConfigError::Unparsable); },
        };
        let raw = read_options(&tree);
        let made = Configuration::resolve(&raw);
        assert(cfg_entries(tree) == toml_entries(text@)->0 && read_from(raw, tree)
            && resolution_outcome(made, raw));
        made
    }

    /// The range that `option` is sampled from for the table `category`: the
    /// one of the kind that the table belongs to, where a combination asks
    /// for that kind; otherwise the one of the run, which has a number of
    /// iterations and a chunk size and nothing else.
    pub open spec fn option_range(self, category: Seq<char>, key: Seq<char>) -> Option<Range> {
        match OptionName::keyed(key) {
            Some(option) => if MutationKind::blocked(category) is Some && self.spec_of(
                MutationKind::blocked(category)->0,
            ) is Some {
                self.spec_of(MutationKind::blocked(category)->0)->0.range_of(option)
            } else if option == OptionName::Iterations {
                Some(self.iterations_of_run())
            } else if option == OptionName::Chunksize {
                Some(self.chunksize_of_run())
            } else {
                None
            },
            None => None,
        }
    }

    /// Samples the option `value` of the table `category`. There is a number
    /// exactly where `option_range` gives a range, and it lies in that range.
    pub fn generate_int_from_option(&self, category: &str, value: &str) -> (found: Option<usize>)
        ensures
            found is Some <==> self.option_range(category@, value@) is Some,
            found matches Some(picked) ==> self.option_range(category@, value@)->0.holds(
                picked as int,
            ),
    {
        let option = match OptionName::from_key(value) {
            Some(option) => option,
            None => { return None; },
        };
        let own = match MutationKind::from_block(category) {
            Some(kind) => self.spec(kind),
            None => None,
        };
        let range = match own {
            Some(spec) => spec.range(option),
            None => match option {
                OptionName::Iterations => Some(self.iterations),
                OptionName::Chunksize => Some(self.chunksize),
                _ => None,
            },
        };
        match range {
            Some(range) => Some(range.sample()),
            None => None,
        }
    }

    /// The name of the input file.
    pub fn get_inputfile(&self) -> (name: &str)
        ensures
            name@ == self.input(),
    {
        self.inputfile.as_str()
    }

    /// The name of the output file: the one that the options give, or that
    /// of the input file.
    pub fn get_outputfile(&self) -> (name: &str)
        ensures
            name@ == self.output(),
    {
        self.outputfile.as_str()
    }

    /// The combinations of mutations to apply, in their order.
    pub fn get_mutations(&self) -> (combinations: &Vec<Vec<MutationKind>>)
        ensures
            combinations_of(combinations@) == self.requested(),
    {
        &self.combinations
    }

    /// How often the run is repeated.
    pub fn get_times(&self) -> (times: u64)
        ensures
            times == self.repeats(),
    {
        self.times
    }

    /// The parameters of `kind`. There are some exactly where a combination
    /// asks for the kind.
    pub fn spec(&self, kind: MutationKind) -> (found: Option<MutationSpec>)
        ensures
            found == self.spec_of(kind),
            found is Some <==> asked_for(self.requested(), kind),
            found matches Some(spec) ==> spec.wf() && spec.kind == kind,
    {
        proof {
            use_type_invariant(self);
            assert(MutationKind::at(kind.ordinal()) == kind);
        }
        self.specs[kind.index()]
    }
}

} // verus!
